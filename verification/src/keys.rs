//! Account keys.
//!
//! The host chain identifies users, mints, programs and sessions by 32-byte
//! public keys.  The core logic only ever compares keys and copies their
//! bytes into canonical encodings, so a key is held here as four 64-bit
//! little-endian limbs: `w0` covers bytes 0..8 of the key, `w1` bytes 8..16,
//! and so on.

use vstd::prelude::*;

verus! {

/// A 32-byte public key, stored as four little-endian 64-bit limbs.
#[derive(Debug, Clone, Copy, PartialEq, Eq, Hash, Structural)]
pub struct Pubkey {
    pub w0: u64,
    pub w1: u64,
    pub w2: u64,
    pub w3: u64,
}

impl Pubkey {
    /// Build a key from its four little-endian limbs.
    pub fn new(w0: u64, w1: u64, w2: u64, w3: u64) -> (r: Pubkey)
        ensures
            r == (Pubkey { w0, w1, w2, w3 }),
    {
        Pubkey { w0, w1, w2, w3 }
    }

    /// The all-zero key.
    pub fn zeroed() -> (r: Pubkey)
        ensures
            r == Pubkey::spec_default(),
    {
        Pubkey { w0: 0, w1: 0, w2: 0, w3: 0 }
    }

    /// The all-zero key, as a specification value.
    pub open spec fn spec_default() -> Pubkey {
        Pubkey { w0: 0, w1: 0, w2: 0, w3: 0 }
    }
}

impl Default for Pubkey {
    /// The default key is the all-zero key.
    fn default() -> (r: Self)
        ensures
            r == Pubkey::spec_default(),
    {
        Pubkey { w0: 0, w1: 0, w2: 0, w3: 0 }
    }
}

} // verus!
