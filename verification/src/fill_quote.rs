//! Keeper-signed fill authorizations.
//!
//! A trusted keeper signs the canonical bytes of an `OffchainFillQuote`;
//! anyone may then submit the quote, its signature and the keeper's key.
//! The canonical encoding and its hash are deterministic, so two encoders
//! produce byte-identical signable payloads.

use vstd::prelude::*;

use crate::keys::Pubkey;
use crate::order::OrderSide;

verus! {

/// What a trusted keeper signs to authorize one fill.
#[derive(Debug, Clone, Copy, PartialEq, Eq, Structural)]
pub struct OffchainFillQuote {
    /// The order to fill.
    pub order_id: u64,
    /// Side of the order; must match the resting order.
    pub side: OrderSide,
    /// Quantity to fill; must not exceed the unfilled quantity.
    pub fill_qty: u64,
    /// Fill price, in the order price scale.
    pub fill_price: u64,
    /// Last slot at which this quote is valid.
    pub expiry_slot: u64,
    /// Market the fill belongs to.
    pub market_id: u64,
    /// The order's owner.
    pub user: Pubkey,
    /// Keeper-maintained monotonic replay counter.
    pub nonce: u64,
}

/// Failures around fill quotes.
#[derive(Debug, Clone, Copy, PartialEq, Eq, Structural)]
pub enum FillQuoteError {
    InvalidQuantity,
    InvalidPrice,
    SerializationError,
    SignatureVerificationFailed,
    QuoteExpired,
    KeeperNotAuthorized,
    InvalidNonce,
    OrderNotFound,
    OrderAlreadyFilled,
    OrderCanceled,
    SideMismatch,
    UserMismatch,
    MarketMismatch,
    InsufficientRemainingQuantity,
}

impl FillQuoteError {
    /// A human-readable description of this error.
    pub fn message(&self) -> String {
        match self {
            FillQuoteError::InvalidQuantity => "Invalid fill quantity".to_string(),
            FillQuoteError::InvalidPrice => "Invalid fill price".to_string(),
            FillQuoteError::SerializationError => "Failed to serialize quote".to_string(),
            FillQuoteError::SignatureVerificationFailed => "Signature verification failed".to_string(),
            FillQuoteError::QuoteExpired => "Quote has expired".to_string(),
            FillQuoteError::KeeperNotAuthorized => "Keeper not authorized".to_string(),
            FillQuoteError::InvalidNonce => "Invalid nonce".to_string(),
            FillQuoteError::OrderNotFound => "Order not found".to_string(),
            FillQuoteError::OrderAlreadyFilled => "Order already filled".to_string(),
            FillQuoteError::OrderCanceled => "Order is canceled".to_string(),
            FillQuoteError::SideMismatch => "Order side mismatch".to_string(),
            FillQuoteError::UserMismatch => "User mismatch".to_string(),
            FillQuoteError::MarketMismatch => "Market mismatch".to_string(),
            FillQuoteError::InsufficientRemainingQuantity => "Insufficient remaining quantity".to_string(),
        }
    }
}

/// The SHA-256 digest of a byte sequence, as the host's hash function
/// computes it.
pub uninterp spec fn sha256_of(data: Seq<u8>) -> Seq<u8>;

/// Relies on `solana_program::hash::hash`: the SHA-256 digest of the
/// input bytes, 32 bytes long and a function of the input alone.
#[verifier::external_body]
fn sha256_digest(data: &Vec<u8>) -> (r: [u8; 32])
    ensures
        r@ == sha256_of(data@),
{
    solana_program::hash::hash(data.as_slice()).to_bytes()
}

impl OffchainFillQuote {
    /// Build a quote, rejecting a zero quantity or price.
    pub fn new(
        order_id: u64,
        side: OrderSide,
        fill_qty: u64,
        fill_price: u64,
        expiry_slot: u64,
        market_id: u64,
        user: Pubkey,
        nonce: u64,
    ) -> (r: Result<Self, FillQuoteError>)
        ensures
            match r {
                Ok(q) => fill_qty > 0 && fill_price > 0 && q == (OffchainFillQuote {
                    order_id,
                    side,
                    fill_qty,
                    fill_price,
                    expiry_slot,
                    market_id,
                    user,
                    nonce,
                }),
                Err(e) => if fill_qty == 0 {
                    e == FillQuoteError::InvalidQuantity
                } else {
                    fill_price == 0 && e == FillQuoteError::InvalidPrice
                },
            },
    {
        if fill_qty == 0 {
            return Err(FillQuoteError::InvalidQuantity);
        }
        if fill_price == 0 {
            return Err(FillQuoteError::InvalidPrice);
        }
        Ok(
            OffchainFillQuote {
                order_id,
                side,
                fill_qty,
                fill_price,
                expiry_slot,
                market_id,
                user,
                nonce,
            },
        )
    }

    /// The canonical bytes of this quote, for hashing and signing.
    pub fn to_bytes(&self) -> (r: Result<Vec<u8>, FillQuoteError>)
        ensures
            match r {
                Ok(b) => b@ == crate::permit_codec::spec_enc_fill_quote(*self),
                Err(_) => false,
            },
    {
        let mut out: Vec<u8> = Vec::new();
        crate::permit_codec::enc_fill_quote(&mut out, self);
        proof {
            assert(out@ =~= crate::permit_codec::spec_enc_fill_quote(*self));
        }
        Ok(out)
    }

    /// The message hash a keeper signs: the SHA-256 digest of the
    /// canonical bytes.
    pub fn message_hash(&self) -> (r: Result<[u8; 32], FillQuoteError>)
        ensures
            match r {
                Ok(h) => h@ == sha256_of(crate::permit_codec::spec_enc_fill_quote(*self)),
                Err(_) => false,
            },
    {
        let bytes = match self.to_bytes() {
            Ok(b) => b,
            Err(e) => { return Err(e) },
        };
        Ok(sha256_digest(&bytes))
    }
}

/// A quote together with its keeper signature.
#[derive(Debug, Clone, Copy, PartialEq, Eq)]
pub struct SignedFillQuote {
    /// The signed quote.
    pub quote: OffchainFillQuote,
    /// The keeper's ed25519 signature over the quote bytes.
    pub signature: [u8; 64],
    /// The keeper key that signed.
    pub keeper_pubkey: Pubkey,
}

impl SignedFillQuote {
    /// Bundle a quote with its signature and signer.
    pub fn new(quote: OffchainFillQuote, signature: [u8; 64], keeper_pubkey: Pubkey) -> (r: Self)
        ensures
            r.quote == quote,
            r.signature == signature,
            r.keeper_pubkey == keeper_pubkey,
    {
        SignedFillQuote { quote, signature, keeper_pubkey }
    }

    /// The canonical quote bytes that were signed.
    pub fn quote_bytes(&self) -> (r: Result<Vec<u8>, FillQuoteError>)
        ensures
            match r {
                Ok(b) => b@ == crate::permit_codec::spec_enc_fill_quote(self.quote),
                Err(_) => false,
            },
    {
        self.quote.to_bytes()
    }

    /// The message hash that should have been signed.
    pub fn message_hash(&self) -> (r: Result<[u8; 32], FillQuoteError>)
        ensures
            match r {
                Ok(h) => h@ == sha256_of(crate::permit_codec::spec_enc_fill_quote(self.quote)),
                Err(_) => false,
            },
    {
        self.quote.message_hash()
    }
}

} // verus!
