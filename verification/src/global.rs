//! Global administrator and keeper registry.

use vstd::prelude::*;

use crate::keys::Pubkey;
use crate::order::is_zero_bytes;

verus! {

/// The current global record layout version.
pub const GLOBAL_CURRENT_VERSION: u8 = 1;

/// The most admins the registry holds.
pub const GLOBAL_MAX_ADMINS: usize = 4;

/// The most keepers the registry holds.
pub const GLOBAL_MAX_KEEPERS: usize = 64;

/// Global state: the admin and keeper key lists and the deposit floor.
#[derive(Debug, Clone)]
pub struct GlobalStateV1 {
    pub version: u8,
    pub _pad: [u8; 128],
    /// Admin public keys, at most `GLOBAL_MAX_ADMINS`.
    pub admins: Vec<Pubkey>,
    /// Keeper public keys, at most `GLOBAL_MAX_KEEPERS`.
    pub keepers: Vec<Pubkey>,
    /// Minimum collateral deposit size.
    pub min_deposit_size: u64,
    pub _pad2: [u8; 128],
}

impl GlobalStateV1 {
    /// Whether `pubkey` is an admin.
    pub fn is_admin(&self, pubkey: &Pubkey) -> (r: bool)
        ensures
            r == self.admins@.contains(*pubkey),
    {
        let n = self.admins.len();
        let mut i: usize = 0;
        while i < n
            invariant
                n == self.admins@.len(),
                0 <= i <= n,
                forall|j: int| 0 <= j < i ==> #[trigger] self.admins@[j] != *pubkey,
            decreases n - i,
        {
            if self.admins[i] == *pubkey {
                return true;
            }
            i = i + 1;
        }
        proof {
            assert(forall|j: int| 0 <= j < self.admins@.len() ==> #[trigger] self.admins@[j]
                != *pubkey);
        }
        false
    }

    /// Whether `pubkey` is a keeper; admins count as keepers.
    pub fn is_keeper(&self, pubkey: &Pubkey) -> (r: bool)
        ensures
            r == (self.keepers@.contains(*pubkey) || self.admins@.contains(*pubkey)),
    {
        let n = self.keepers.len();
        let mut i: usize = 0;
        while i < n
            invariant
                n == self.keepers@.len(),
                0 <= i <= n,
                forall|j: int| 0 <= j < i ==> #[trigger] self.keepers@[j] != *pubkey,
            decreases n - i,
        {
            if self.keepers[i] == *pubkey {
                return true;
            }
            i = i + 1;
        }
        proof {
            assert(forall|j: int| 0 <= j < self.keepers@.len() ==> #[trigger] self.keepers@[j]
                != *pubkey);
        }
        self.is_admin(pubkey)
    }

    /// Whether this record carries the fresh values: current version, no
    /// admins or keepers, zero deposit floor.
    pub open spec fn spec_is_fresh(self) -> bool {
        &&& self.version == GLOBAL_CURRENT_VERSION
        &&& is_zero_bytes(self._pad@)
        &&& self.admins@.len() == 0
        &&& self.keepers@.len() == 0
        &&& self.min_deposit_size == 0
        &&& is_zero_bytes(self._pad2@)
    }
}

} // verus!
