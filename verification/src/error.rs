//! Error values shared across the exchange core.

use vstd::prelude::*;

verus! {

/// Program-level failure raised by the accounting and storage operations.
#[derive(Debug, Clone, Copy, PartialEq, Eq, Structural)]
pub enum ProgramError {
    ArithmeticOverflow,
    InvalidArgument,
    InsufficientFunds,
    InvalidAccountData,
    AccountDataTooSmall,
    UninitializedAccount,
    AccountAlreadyInitialized,
    Custom(u32),
}

/// Exchange error codes, returned as `u32` discriminants in program errors.
#[derive(Debug, Clone, Copy, PartialEq, Eq, Structural)]
pub enum EmberError {
    /// Invalid instruction discriminant.
    UnknownInstruction,
    /// Seeds mismatch or account not owned by the program.
    InvalidPDA,
    /// Signer lacks the required role.
    Unauthorized,
    /// Account version exceeds the program's current version.
    VersionMismatch,
    /// Not enough free collateral.
    InsufficientNonCommitted,
    /// Committed collateral too low.
    InsufficientCommitted,
    /// Order registry at capacity.
    RegistryFull,
    /// order_id missing.
    OrderNotFound,
    /// Re-used order_id.
    DuplicateOrderID,
    /// Would breach initial margin.
    WithdrawalBelowIM,
    /// Keeper attempted premature liquidation.
    LiquidationNotEligible,
    /// Canonical (de)serialization failure.
    SerializationError,
    /// Integer overflow or underflow.
    MathOverflow,
}

impl EmberError {
    /// The numeric code of this error.
    pub fn code(&self) -> (c: u32)
        ensures
            c == self.spec_code(),
    {
        match self {
            EmberError::UnknownInstruction => 0,
            EmberError::InvalidPDA => 1,
            EmberError::Unauthorized => 2,
            EmberError::VersionMismatch => 3,
            EmberError::InsufficientNonCommitted => 4,
            EmberError::InsufficientCommitted => 5,
            EmberError::RegistryFull => 6,
            EmberError::OrderNotFound => 7,
            EmberError::DuplicateOrderID => 8,
            EmberError::WithdrawalBelowIM => 9,
            EmberError::LiquidationNotEligible => 10,
            EmberError::SerializationError => 11,
            EmberError::MathOverflow => 12,
        }
    }

    /// The numeric code of this error, as a specification value.
    pub open spec fn spec_code(self) -> u32 {
        match self {
            EmberError::UnknownInstruction => 0,
            EmberError::InvalidPDA => 1,
            EmberError::Unauthorized => 2,
            EmberError::VersionMismatch => 3,
            EmberError::InsufficientNonCommitted => 4,
            EmberError::InsufficientCommitted => 5,
            EmberError::RegistryFull => 6,
            EmberError::OrderNotFound => 7,
            EmberError::DuplicateOrderID => 8,
            EmberError::WithdrawalBelowIM => 9,
            EmberError::LiquidationNotEligible => 10,
            EmberError::SerializationError => 11,
            EmberError::MathOverflow => 12,
        }
    }

    /// A human-readable description of this error.
    pub fn message(&self) -> String {
        match self {
            EmberError::UnknownInstruction => "UnknownInstruction: Invalid ix discriminant".to_string(),
            EmberError::InvalidPDA => "InvalidPDA: Seeds mismatch or account not owned by program".to_string(),
            EmberError::Unauthorized => "Unauthorized: Signer lacks required role".to_string(),
            EmberError::VersionMismatch => "VersionMismatch: Account version > program CURR_VERSION".to_string(),
            EmberError::InsufficientNonCommitted => "InsufficientNonCommitted: Not enough free collateral".to_string(),
            EmberError::InsufficientCommitted => "InsufficientCommitted: committed_collateral too low".to_string(),
            EmberError::RegistryFull => "RegistryFull: OrderRegistry at capacity".to_string(),
            EmberError::OrderNotFound => "OrderNotFound: order_id missing".to_string(),
            EmberError::DuplicateOrderID => "DuplicateOrderID: Re-used order_id".to_string(),
            EmberError::WithdrawalBelowIM => "WithdrawalBelowIM: Would breach init margin".to_string(),
            EmberError::LiquidationNotEligible => "LiquidationNotEligible: Keeper attempted premature liq".to_string(),
            EmberError::SerializationError => "SerializationError: Borsh (de)ser failure".to_string(),
            EmberError::MathOverflow => "MathOverflow: u64 overflow/underflow".to_string(),
        }
    }
}

} // verus!
