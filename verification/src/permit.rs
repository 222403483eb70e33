//! Permit envelopes, sessions, allowances and replay prevention.
//!
//! A permit envelope authorizes one exchange action without a direct
//! transaction from the owner.  Replay is prevented by one of four modes:
//! a strict sequence counter, a single-use 32-byte nonce, a counted
//! allowance, or a sliding window of the `k` highest accepted nonces.

use vstd::prelude::*;

use crate::keys::Pubkey;
use crate::order::TimeInForce;

verus! {

/// Domain separator of a permit: which deployment and cluster may accept
/// it, at which envelope version.
#[derive(Debug, Clone, Copy, PartialEq, Eq, Structural)]
pub struct PermitDomain {
    pub program_id: Pubkey,
    pub cluster: ClusterType,
    pub version: u8,
}

/// The cluster a permit is bound to.
#[derive(Debug, Clone, Copy, PartialEq, Eq, Structural)]
pub enum ClusterType {
    Mainnet,
    Testnet,
    Devnet,
    Localnet,
}

/// Replay prevention mode carried inside the envelope.
#[derive(Debug, Clone, Copy, PartialEq, Eq)]
pub enum ReplayMode {
    /// Strictly increasing counter; accepted only at the stored value.
    Sequence(u64),
    /// Single-use 32-byte nonce.
    Nonce([u8; 32]),
    /// Counted allowance, by id.
    Allowance([u8; 32]),
    /// Sliding window of the `k` highest accepted nonces.
    HlWindow { k: u8 },
}

/// Stored sequence replay state.
#[derive(Debug, Clone, Copy, PartialEq, Eq, Structural)]
pub struct SequenceState {
    pub next_sequence: u64,
    pub bump: u8,
}

/// Encoded size of a `SequenceState` record.
pub const SEQUENCE_STATE_LEN: usize = 8 + 1;

/// A health floor an action must keep the account above.
#[derive(Debug, Clone, Copy, PartialEq, Eq, Structural)]
pub struct HealthFloor {
    pub metric: HealthMetric,
    pub min: i64,
}

/// Which health measure a floor constrains.
#[derive(Debug, Clone, Copy, PartialEq, Eq, Structural)]
pub enum HealthMetric {
    Initial,
    Maintenance,
    RatioBps,
}

/// The action a permit authorizes.
#[derive(Debug, Clone, Copy, PartialEq, Eq, Structural)]
pub enum PermitAction {
    Place {
        market_id: u64,
        client_id: u128,
        side: u8,
        qty: u64,
        price: Option<u64>,
        tif: TimeInForce,
        reduce_only: bool,
        trigger_price: Option<u64>,
        trigger_type: u8,
        health_floor: Option<HealthFloor>,
    },
    CancelById {
        market_id: u64,
        order_id: u64,
    },
    CancelByClientId {
        market_id: u64,
        client_id: u128,
    },
    CancelAll {
        market_id: Option<u64>,
    },
    Modify {
        market_id: u64,
        cancel_order_id: u64,
        new_client_id: u128,
        side: u8,
        qty: u64,
        price: Option<u64>,
        tif: TimeInForce,
        reduce_only: bool,
        trigger_price: Option<u64>,
        trigger_type: u8,
        health_floor: Option<HealthFloor>,
    },
    Withdraw {
        amount: u64,
        to_owner: Pubkey,
        health_floor: Option<HealthFloor>,
    },
    SetLeverage {
        market_id: u64,
        target_leverage_bps: u16,
        health_floor: Option<HealthFloor>,
    },
    Noop,
    Faucet {
        market_id: u64,
        amount: u64,
        recipient: Pubkey,
    },
}

/// The signed permit envelope.
#[derive(Debug, Clone, Copy, PartialEq, Eq)]
pub struct PermitEnvelopeV1 {
    pub domain: PermitDomain,
    pub authorizer: Pubkey,
    pub key_type: KeyType,
    pub action: PermitAction,
    pub mode: ReplayMode,
    pub expires_unix: i64,
    pub max_fee_quote: u64,
    pub relayer: Option<Pubkey>,
    pub nonce: u64,
}

/// Signature scheme of the authorizer's key.
#[derive(Debug, Clone, Copy, PartialEq, Eq, Structural)]
pub enum KeyType {
    Ed25519,
    Secp256k1,
}

/// Scope bit authorizing order placement.
pub const SCOPE_PLACE: u32 = 1;

/// Scope bit authorizing cancellations.
pub const SCOPE_CANCEL: u32 = 2;

/// Scope bit authorizing withdrawals.
pub const SCOPE_WITHDRAW: u32 = 4;

/// Scope bit authorizing leverage changes.
pub const SCOPE_SET_LEVERAGE: u32 = 8;

/// Scope bit authorizing faucet credits.
pub const SCOPE_FAUCET: u32 = 16;

/// A delegated session key with a bounded scope set and expiry.
#[derive(Debug, Clone, Copy, PartialEq, Eq, Structural)]
pub struct SessionState {
    pub owner: Pubkey,
    pub session: Pubkey,
    pub expires_unix: i64,
    pub scopes_bits: u32,
    pub withdraw_limit_24h: u64,
    pub per_market_size_limit_lots: i64,
    pub bump: u8,
}

/// Encoded size of a `SessionState` record.
pub const SESSION_STATE_LEN: usize = 32 + 32 + 8 + 4 + 8 + 8 + 1;

/// Which scope bits `action` needs: placement needs PLACE, every cancel
/// variant needs CANCEL, a modify needs both, withdrawal, leverage and
/// faucet their own bits, and a no-op needs none.
pub open spec fn spec_has_scope(scopes_bits: u32, action: PermitAction) -> bool {
    match action {
        PermitAction::Place { .. } => (scopes_bits & SCOPE_PLACE) != 0,
        PermitAction::CancelById { .. } => (scopes_bits & SCOPE_CANCEL) != 0,
        PermitAction::CancelByClientId { .. } => (scopes_bits & SCOPE_CANCEL) != 0,
        PermitAction::CancelAll { .. } => (scopes_bits & SCOPE_CANCEL) != 0,
        PermitAction::Modify { .. } => (scopes_bits & SCOPE_CANCEL) != 0 && (scopes_bits
            & SCOPE_PLACE) != 0,
        PermitAction::Withdraw { .. } => (scopes_bits & SCOPE_WITHDRAW) != 0,
        PermitAction::SetLeverage { .. } => (scopes_bits & SCOPE_SET_LEVERAGE) != 0,
        PermitAction::Faucet { .. } => (scopes_bits & SCOPE_FAUCET) != 0,
        PermitAction::Noop => true,
    }
}

impl SessionState {
    /// Law: scope authorization is complete and deterministic.  Every
    /// `PermitAction` variant maps to the scope bits of the authorization
    /// table, as `spec_has_scope` writes them out variant by variant.
    pub fn has_scope(&self, action: &PermitAction) -> (r: bool)
        ensures
            r == spec_has_scope(self.scopes_bits, *action),
    {
        match action {
            PermitAction::Place { .. } => (self.scopes_bits & SCOPE_PLACE) != 0,
            PermitAction::CancelById { .. } => (self.scopes_bits & SCOPE_CANCEL) != 0,
            PermitAction::CancelByClientId { .. } => (self.scopes_bits & SCOPE_CANCEL) != 0,
            PermitAction::CancelAll { .. } => (self.scopes_bits & SCOPE_CANCEL) != 0,
            PermitAction::Modify { .. } => (self.scopes_bits & SCOPE_CANCEL) != 0
                && (self.scopes_bits & SCOPE_PLACE) != 0,
            PermitAction::Withdraw { .. } => (self.scopes_bits & SCOPE_WITHDRAW) != 0,
            PermitAction::SetLeverage { .. } => (self.scopes_bits & SCOPE_SET_LEVERAGE) != 0,
            PermitAction::Faucet { .. } => (self.scopes_bits & SCOPE_FAUCET) != 0,
            PermitAction::Noop => true,
        }
    }
}

/// A counted, expiring allowance for a session key.
#[derive(Debug, Clone, Copy, PartialEq, Eq)]
pub struct AllowanceState {
    pub owner: Pubkey,
    pub session: Pubkey,
    pub id: [u8; 32],
    pub remaining_uses: u32,
    pub expires_unix: i64,
    pub scopes_bits: u32,
    pub bump: u8,
}

/// Encoded size of an `AllowanceState` record.
pub const ALLOWANCE_STATE_LEN: usize = 32 + 32 + 32 + 4 + 8 + 4 + 1;

/// Marker record for a consumed single-use nonce.
#[derive(Debug, Clone, Copy, PartialEq, Eq, Structural)]
pub struct UsedNonceState {
    pub timestamp: i64,
    pub bump: u8,
}

/// Encoded size of a `UsedNonceState` record.
pub const USED_NONCE_STATE_LEN: usize = 8 + 1;

/// The largest supported nonce-window size.
pub const NONCE_WINDOW_MAX_K: u8 = 128;

/// Encoded size of a `NonceWindowState` record at the maximum window size.
pub const NONCE_WINDOW_STATE_LEN: usize = 32 + 1 + 4 + 128 * 8 + 1;

/// Sliding-window replay state: the up-to-`k` highest nonces accepted so
/// far, kept in ascending order.
#[derive(Debug, Clone, PartialEq, Eq)]
pub struct NonceWindowState {
    pub signer: Pubkey,
    /// Window size, between 1 and `NONCE_WINDOW_MAX_K`.
    pub k: u8,
    /// Accepted nonces, ascending; at most `k` of them.
    pub top: Vec<u64>,
    pub bump: u8,
}

/// Whether a nonce sequence is in ascending order.
pub open spec fn spec_sorted(s: Seq<u64>) -> bool {
    forall|i: int, j: int| 0 <= i < j < s.len() ==> s[i] <= s[j]
}

/// The position at which `n` inserts into the ascending sequence `s`: the
/// first index holding a value at least `n`, or the length.
pub open spec fn spec_insert_pos(s: Seq<u64>, n: u64) -> int
    decreases s.len(),
{
    if s.len() == 0 {
        0
    } else if s[0] >= n {
        0
    } else {
        1 + spec_insert_pos(s.drop_first(), n)
    }
}

/// `spec_insert_pos` lies within `0..=len`; everything before it is below
/// `n` and, within range, the value there is at least `n`.
pub proof fn lemma_insert_pos(s: Seq<u64>, n: u64)
    ensures
        0 <= spec_insert_pos(s, n) <= s.len(),
        spec_insert_pos(s, n) < s.len() ==> s[spec_insert_pos(s, n)] >= n,
        forall|j: int| 0 <= j < spec_insert_pos(s, n) ==> #[trigger] s[j] < n,
    decreases s.len(),
{
    if s.len() != 0 && s[0] < n {
        lemma_insert_pos(s.drop_first(), n);
        let f1 = spec_insert_pos(s.drop_first(), n);
        assert forall|j: int| 0 <= j < spec_insert_pos(s, n) implies #[trigger] s[j] < n by {
            if j > 0 {
                assert(s.drop_first()[j - 1] == s[j]);
            }
        }
        if spec_insert_pos(s, n) < s.len() {
            assert(s.drop_first()[f1] == s[1 + f1]);
        }
    }
}

/// Any index satisfying the insertion-point characterization is
/// `spec_insert_pos`.
pub proof fn lemma_insert_pos_unique(s: Seq<u64>, n: u64, i: int)
    requires
        0 <= i <= s.len(),
        i < s.len() ==> s[i] >= n,
        forall|j: int| 0 <= j < i ==> #[trigger] s[j] < n,
    ensures
        i == spec_insert_pos(s, n),
{
    lemma_insert_pos(s, n);
    let f = spec_insert_pos(s, n);
    if f < i {
        assert(s[f] < n);
    } else if i < f {
        assert(s[i] < n);
    }
}

/// Inserting `n` at its insertion point keeps an ascending sequence
/// ascending.
pub proof fn lemma_insert_keeps_sorted(s: Seq<u64>, n: u64)
    requires
        spec_sorted(s),
    ensures
        spec_sorted(s.insert(spec_insert_pos(s, n), n)),
{
    lemma_insert_pos(s, n);
    let p = spec_insert_pos(s, n);
    let t = s.insert(p, n);
    assert forall|i: int, j: int| 0 <= i < j < t.len() implies t[i] <= t[j] by {
        assert(forall|m: int| 0 <= m < p ==> t[m] == s[m]);
        assert(t[p] == n);
        assert(forall|m: int| p < m < t.len() ==> t[m] == s[m - 1]);
        if i < p && j < p {
        } else if i < p && j == p {
            assert(s[i] < n);
        } else if i == p && j > p {
            assert(s[j - 1] >= n);
        } else if i < p && j > p {
            assert(s[i] < n);
            assert(s[j - 1] >= n);
        } else if i == p && j == p {
        } else if i > p && j > p {
        }
    }
}

/// The sequence `s` with its first element dropped stays ascending.
pub proof fn lemma_drop_first_sorted(s: Seq<u64>)
    requires
        spec_sorted(s),
        s.len() >= 1,
    ensures
        spec_sorted(s.drop_first()),
{
    assert forall|i: int, j: int| 0 <= i < j < s.drop_first().len() implies s.drop_first()[i]
        <= s.drop_first()[j] by {
        assert(s.drop_first()[i] == s[i + 1]);
        assert(s.drop_first()[j] == s[j + 1]);
    }
}

impl NonceWindowState {
    /// Find the insertion point of `n` in the ascending `top` vector.
    fn insert_position(top: &Vec<u64>, n: u64) -> (r: usize)
        ensures
            r == spec_insert_pos(top@, n),
    {
        let len = top.len();
        let mut i: usize = 0;
        while i < len
            invariant
                len == top@.len(),
                0 <= i <= len,
                forall|j: int| 0 <= j < i ==> #[trigger] top@[j] < n,
            decreases len - i,
        {
            if top[i] >= n {
                proof {
                    lemma_insert_pos_unique(top@, n, i as int);
                }
                return i;
            }
            i = i + 1;
        }
        proof {
            lemma_insert_pos_unique(top@, n, len as int);
        }
        len
    }

    /// Whether `top` already holds `n`.
    fn contains_nonce(top: &Vec<u64>, n: u64) -> (r: bool)
        ensures
            r == top@.contains(n),
    {
        let len = top.len();
        let mut i: usize = 0;
        while i < len
            invariant
                len == top@.len(),
                0 <= i <= len,
                forall|j: int| 0 <= j < i ==> #[trigger] top@[j] != n,
            decreases len - i,
        {
            if top[i] == n {
                return true;
            }
            i = i + 1;
        }
        proof {
            assert(forall|j: int| 0 <= j < top@.len() ==> #[trigger] top@[j] != n);
        }
        false
    }

    /// Accept or reject `nonce` into the window.  A duplicate is rejected;
    /// while the window is short of `k` entries the nonce is inserted in
    /// order; once full, a nonce at or below the smallest retained entry is
    /// rejected and otherwise displaces it.
    pub fn insert_nonce(&mut self, nonce: u64) -> (r: Result<(), &'static str>)
        requires
            spec_sorted(old(self).top@),
            old(self).k >= 1,
        ensures
            final(self).signer == old(self).signer,
            final(self).k == old(self).k,
            final(self).bump == old(self).bump,
            match r {
                Ok(_) => {
                    &&& !old(self).top@.contains(nonce)
                    &&& spec_sorted(final(self).top@)
                    &&& if old(self).top@.len() < old(self).k {
                        final(self).top@ == old(self).top@.insert(
                            spec_insert_pos(old(self).top@, nonce),
                            nonce,
                        )
                    } else {
                        nonce > old(self).top@[0] && final(self).top@ == old(
                            self,
                        ).top@.drop_first().insert(
                            spec_insert_pos(old(self).top@.drop_first(), nonce),
                            nonce,
                        )
                    }
                },
                Err(m) => {
                    &&& *final(self) == *old(self)
                    &&& if old(self).top@.contains(nonce) {
                        m == "Nonce already used"
                    } else {
                        old(self).top@.len() >= old(self).k && nonce <= old(self).top@[0] && m
                            == "Nonce too small for window"
                    }
                },
            },
    {
        if Self::contains_nonce(&self.top, nonce) {
            return Err("Nonce already used");
        }
        if self.top.len() < self.k as usize {
            let pos = Self::insert_position(&self.top, nonce);
            proof {
                lemma_insert_pos(self.top@, nonce);
                lemma_insert_keeps_sorted(self.top@, nonce);
            }
            self.top.insert(pos, nonce);
            return Ok(());
        }
        let smallest = self.top[0];
        if nonce <= smallest {
            return Err("Nonce too small for window");
        }
        proof {
            lemma_drop_first_sorted(self.top@);
        }
        self.top.remove(0);
        proof {
            assert(self.top@ =~= old(self).top@.drop_first());
            lemma_insert_pos(self.top@, nonce);
            lemma_insert_keeps_sorted(self.top@, nonce);
        }
        let pos = Self::insert_position(&self.top, nonce);
        self.top.insert(pos, nonce);
        Ok(())
    }

    /// Whether `nonce`, read as a Unix-millisecond stamp, lies within the
    /// acceptance window of two days back to one day ahead of `now_ms`.
    pub fn is_valid_nonce(&self, nonce: u64, now_ms: i64) -> (r: bool)
        ensures
            r == (now_ms - 172_800_000 <= (nonce as i64) <= now_ms + 86_400_000),
    {
        let nonce_time: i128 = (nonce as i64) as i128;
        let lower: i128 = (now_ms as i128) - 172_800_000i128;
        let upper: i128 = (now_ms as i128) + 86_400_000i128;
        lower <= nonce_time && nonce_time <= upper
    }
}

/// Law: the nonce-window floor is monotone once the window is full.  A
/// rejected nonce leaves the window unchanged, and an accepted nonce
/// displaces the smallest entry with a larger one, so the smallest
/// retained nonce never decreases.  (While the window is still filling,
/// an accepted nonce below the current smallest does lower the floor.)
pub proof fn lemma_nonce_window_floor(s: Seq<u64>, n: u64)
    requires
        spec_sorted(s),
        s.len() >= 1,
        n > s[0],
    ensures
        ({
            let t = s.drop_first().insert(spec_insert_pos(s.drop_first(), n), n);
            t.len() >= 1 && t[0] >= s[0]
        }),
{
    let d = s.drop_first();
    lemma_insert_pos(d, n);
    let p = spec_insert_pos(d, n);
    let t = d.insert(p, n);
    if p == 0 {
        assert(t[0] == n);
    } else {
        assert(t[0] == d[0]);
        assert(d[0] == s[1]);
    }
}

/// Event recorded when a permit is consumed.
#[derive(Debug, Clone, Copy, PartialEq, Eq)]
pub struct PermitConsumedEvent {
    pub owner: Pubkey,
    pub authorizer: Pubkey,
    pub action_hash: [u8; 32],
    pub nonce: u64,
    pub timestamp: i64,
}

} // verus!
