//! Canonical byte encoding of the session, allowance, replay and market
//! records.
//!
//! Each persisted record kind carries a specification encoder, a
//! specification decoder inverting it, and executable functions proved
//! against the pair.

use vstd::prelude::*;

use crate::codec::dec_i64;
use crate::codec::dec_pubkey;
use crate::codec::dec_u16;
use crate::codec::dec_u32;
use crate::codec::dec_u64;
use crate::codec::dec_u8;
use crate::codec::enc_i64;
use crate::codec::enc_pubkey;
use crate::codec::enc_u16;
use crate::codec::enc_u32;
use crate::codec::enc_u64;
use crate::codec::enc_u8;
use crate::codec::lemma_prim_round_trip;
use crate::codec::spec_dec_i64;
use crate::codec::spec_dec_pubkey;
use crate::codec::spec_dec_u16;
use crate::codec::spec_dec_u32;
use crate::codec::spec_dec_u64;
use crate::codec::spec_dec_u8;
use crate::codec::spec_enc_i64;
use crate::codec::spec_enc_pubkey;
use crate::codec::spec_enc_u16;
use crate::codec::spec_enc_u32;
use crate::codec::spec_enc_u64;
use crate::codec::spec_enc_u8;
use crate::market::MarketStateV1;
use crate::order_codec::dec_bytes_n;
use crate::order_codec::enc_bytes_n;
use crate::order_codec::lemma_app_assoc;
use crate::order_codec::lemma_arr_round_trip;
use crate::order_codec::spec_dec_arr;
use crate::permit::AllowanceState;
use crate::permit::SequenceState;
use crate::permit::SessionState;
use crate::permit::UsedNonceState;

verus! {

/// The canonical bytes of a `SessionState` record.
pub open spec fn spec_enc_session_state(x: SessionState) -> Seq<u8> {
    spec_enc_pubkey(x.owner) + spec_enc_pubkey(x.session) + spec_enc_i64(x.expires_unix) + spec_enc_u32(x.scopes_bits) + spec_enc_u64(x.withdraw_limit_24h) + spec_enc_i64(x.per_market_size_limit_lots) + spec_enc_u8(x.bump)
}

/// Decode a `SessionState` record.
pub open spec fn spec_dec_session_state(s: Seq<u8>) -> Option<(SessionState, Seq<u8>)> {
    match spec_dec_pubkey(s) {
            Some(a0) => match spec_dec_pubkey(a0.1) {
            Some(a1) => match spec_dec_i64(a1.1) {
            Some(a2) => match spec_dec_u32(a2.1) {
            Some(a3) => match spec_dec_u64(a3.1) {
            Some(a4) => match spec_dec_i64(a4.1) {
            Some(a5) => match spec_dec_u8(a5.1) {
            Some(a6) => Some(((SessionState { owner: a0.0, session: a1.0, expires_unix: a2.0, scopes_bits: a3.0, withdraw_limit_24h: a4.0, per_market_size_limit_lots: a5.0, bump: a6.0 }), a6.1)),
            None => None,
        },
            None => None,
        },
            None => None,
        },
            None => None,
        },
            None => None,
        },
            None => None,
        },
            None => None,
        }
}

/// Decoding inverts encoding for a `SessionState` record.
pub proof fn lemma_session_state_round_trip(x: SessionState, rest: Seq<u8>)
    ensures
        spec_dec_session_state(spec_enc_session_state(x) + rest) == Some((x, rest)),
{
    lemma_prim_round_trip();
    let t6 = spec_enc_u8(x.bump) + rest;
    let t5 = spec_enc_i64(x.per_market_size_limit_lots) + t6;
    let t4 = spec_enc_u64(x.withdraw_limit_24h) + t5;
    let t3 = spec_enc_u32(x.scopes_bits) + t4;
    let t2 = spec_enc_i64(x.expires_unix) + t3;
    let t1 = spec_enc_pubkey(x.session) + t2;
    let t0 = spec_enc_pubkey(x.owner) + t1;
    assert(spec_enc_session_state(x) + rest =~= t0);
}

/// Append a `SessionState` record.
pub fn enc_session_state(out: &mut Vec<u8>, x: &SessionState)
    ensures
        final(out)@ == old(out)@ + spec_enc_session_state(*x),
{
    enc_pubkey(out, &x.owner);
    enc_pubkey(out, &x.session);
    enc_i64(out, x.expires_unix);
    enc_u32(out, x.scopes_bits);
    enc_u64(out, x.withdraw_limit_24h);
    enc_i64(out, x.per_market_size_limit_lots);
    enc_u8(out, x.bump);
    proof {
        assert(final(out)@ =~= old(out)@ + spec_enc_session_state(*x));
    }
}

/// Read a `SessionState` record at `pos`.
pub fn dec_session_state(buf: &Vec<u8>, pos: usize) -> (r: Option<(SessionState, usize)>)
    requires
        pos <= buf@.len(),
    ensures
        match r {
            Some(v) => pos <= v.1 <= buf@.len() && spec_dec_session_state(buf@.skip(pos as int)) == Some(
                (v.0, buf@.skip(v.1 as int)),
            ),
            None => spec_dec_session_state(buf@.skip(pos as int)) is None,
        },
{
    let a0 = match dec_pubkey(buf, pos) {
        Some(v) => v,
        None => { return None },
    };
    let a1 = match dec_pubkey(buf, a0.1) {
        Some(v) => v,
        None => { return None },
    };
    let a2 = match dec_i64(buf, a1.1) {
        Some(v) => v,
        None => { return None },
    };
    let a3 = match dec_u32(buf, a2.1) {
        Some(v) => v,
        None => { return None },
    };
    let a4 = match dec_u64(buf, a3.1) {
        Some(v) => v,
        None => { return None },
    };
    let a5 = match dec_i64(buf, a4.1) {
        Some(v) => v,
        None => { return None },
    };
    let a6 = match dec_u8(buf, a5.1) {
        Some(v) => v,
        None => { return None },
    };
    Some((SessionState { owner: a0.0, session: a1.0, expires_unix: a2.0, scopes_bits: a3.0, withdraw_limit_24h: a4.0, per_market_size_limit_lots: a5.0, bump: a6.0 }, a6.1))
}

/// The canonical bytes of an `AllowanceState` record.
pub open spec fn spec_enc_allowance_state(x: AllowanceState) -> Seq<u8> {
    spec_enc_pubkey(x.owner) + spec_enc_pubkey(x.session) + x.id@ + spec_enc_u32(x.remaining_uses) + spec_enc_i64(x.expires_unix) + spec_enc_u32(x.scopes_bits) + spec_enc_u8(x.bump)
}

/// Decode an `AllowanceState` record.
pub open spec fn spec_dec_allowance_state(s: Seq<u8>) -> Option<(AllowanceState, Seq<u8>)> {
    match spec_dec_pubkey(s) {
            Some(a0) => match spec_dec_pubkey(a0.1) {
            Some(a1) => match spec_dec_arr::<32>(a1.1) {
            Some(a2) => match spec_dec_u32(a2.1) {
            Some(a3) => match spec_dec_i64(a3.1) {
            Some(a4) => match spec_dec_u32(a4.1) {
            Some(a5) => match spec_dec_u8(a5.1) {
            Some(a6) => Some(((AllowanceState { owner: a0.0, session: a1.0, id: a2.0, remaining_uses: a3.0, expires_unix: a4.0, scopes_bits: a5.0, bump: a6.0 }), a6.1)),
            None => None,
        },
            None => None,
        },
            None => None,
        },
            None => None,
        },
            None => None,
        },
            None => None,
        },
            None => None,
        }
}

/// Decoding inverts encoding for an `AllowanceState` record.
pub proof fn lemma_allowance_state_round_trip(x: AllowanceState, rest: Seq<u8>)
    ensures
        spec_dec_allowance_state(spec_enc_allowance_state(x) + rest) == Some((x, rest)),
{
    lemma_prim_round_trip();
    let t6 = spec_enc_u8(x.bump) + rest;
    let t5 = spec_enc_u32(x.scopes_bits) + t6;
    let t4 = spec_enc_i64(x.expires_unix) + t5;
    let t3 = spec_enc_u32(x.remaining_uses) + t4;
    let t2 = x.id@ + t3;
    let t1 = spec_enc_pubkey(x.session) + t2;
    let t0 = spec_enc_pubkey(x.owner) + t1;
    assert(spec_enc_allowance_state(x) + rest =~= t0);
    lemma_arr_round_trip::<32>(x.id, t3);
}

/// Append an `AllowanceState` record.
pub fn enc_allowance_state(out: &mut Vec<u8>, x: &AllowanceState)
    ensures
        final(out)@ == old(out)@ + spec_enc_allowance_state(*x),
{
    enc_pubkey(out, &x.owner);
    enc_pubkey(out, &x.session);
    enc_bytes_n(out, &x.id);
    enc_u32(out, x.remaining_uses);
    enc_i64(out, x.expires_unix);
    enc_u32(out, x.scopes_bits);
    enc_u8(out, x.bump);
    proof {
        assert(final(out)@ =~= old(out)@ + spec_enc_allowance_state(*x));
    }
}

/// Read an `AllowanceState` record at `pos`.
pub fn dec_allowance_state(buf: &Vec<u8>, pos: usize) -> (r: Option<(AllowanceState, usize)>)
    requires
        pos <= buf@.len(),
    ensures
        match r {
            Some(v) => pos <= v.1 <= buf@.len() && spec_dec_allowance_state(buf@.skip(pos as int)) == Some(
                (v.0, buf@.skip(v.1 as int)),
            ),
            None => spec_dec_allowance_state(buf@.skip(pos as int)) is None,
        },
{
    let a0 = match dec_pubkey(buf, pos) {
        Some(v) => v,
        None => { return None },
    };
    let a1 = match dec_pubkey(buf, a0.1) {
        Some(v) => v,
        None => { return None },
    };
    let a2 = match dec_bytes_n::<32>(buf, a1.1) {
        Some(v) => v,
        None => { return None },
    };
    let a3 = match dec_u32(buf, a2.1) {
        Some(v) => v,
        None => { return None },
    };
    let a4 = match dec_i64(buf, a3.1) {
        Some(v) => v,
        None => { return None },
    };
    let a5 = match dec_u32(buf, a4.1) {
        Some(v) => v,
        None => { return None },
    };
    let a6 = match dec_u8(buf, a5.1) {
        Some(v) => v,
        None => { return None },
    };
    Some((AllowanceState { owner: a0.0, session: a1.0, id: a2.0, remaining_uses: a3.0, expires_unix: a4.0, scopes_bits: a5.0, bump: a6.0 }, a6.1))
}

/// The canonical bytes of a `UsedNonceState` record.
pub open spec fn spec_enc_used_nonce_state(x: UsedNonceState) -> Seq<u8> {
    spec_enc_i64(x.timestamp) + spec_enc_u8(x.bump)
}

/// Decode a `UsedNonceState` record.
pub open spec fn spec_dec_used_nonce_state(s: Seq<u8>) -> Option<(UsedNonceState, Seq<u8>)> {
    match spec_dec_i64(s) {
            Some(a0) => match spec_dec_u8(a0.1) {
            Some(a1) => Some(((UsedNonceState { timestamp: a0.0, bump: a1.0 }), a1.1)),
            None => None,
        },
            None => None,
        }
}

/// Decoding inverts encoding for a `UsedNonceState` record.
pub proof fn lemma_used_nonce_state_round_trip(x: UsedNonceState, rest: Seq<u8>)
    ensures
        spec_dec_used_nonce_state(spec_enc_used_nonce_state(x) + rest) == Some((x, rest)),
{
    lemma_prim_round_trip();
    let t1 = spec_enc_u8(x.bump) + rest;
    let t0 = spec_enc_i64(x.timestamp) + t1;
    assert(spec_enc_used_nonce_state(x) + rest =~= t0);
}

/// Append a `UsedNonceState` record.
pub fn enc_used_nonce_state(out: &mut Vec<u8>, x: &UsedNonceState)
    ensures
        final(out)@ == old(out)@ + spec_enc_used_nonce_state(*x),
{
    enc_i64(out, x.timestamp);
    enc_u8(out, x.bump);
    proof {
        assert(final(out)@ =~= old(out)@ + spec_enc_used_nonce_state(*x));
    }
}

/// Read a `UsedNonceState` record at `pos`.
pub fn dec_used_nonce_state(buf: &Vec<u8>, pos: usize) -> (r: Option<(UsedNonceState, usize)>)
    requires
        pos <= buf@.len(),
    ensures
        match r {
            Some(v) => pos <= v.1 <= buf@.len() && spec_dec_used_nonce_state(buf@.skip(pos as int)) == Some(
                (v.0, buf@.skip(v.1 as int)),
            ),
            None => spec_dec_used_nonce_state(buf@.skip(pos as int)) is None,
        },
{
    let a0 = match dec_i64(buf, pos) {
        Some(v) => v,
        None => { return None },
    };
    let a1 = match dec_u8(buf, a0.1) {
        Some(v) => v,
        None => { return None },
    };
    Some((UsedNonceState { timestamp: a0.0, bump: a1.0 }, a1.1))
}

/// The canonical bytes of a `SequenceState` record.
pub open spec fn spec_enc_sequence_state(x: SequenceState) -> Seq<u8> {
    spec_enc_u64(x.next_sequence) + spec_enc_u8(x.bump)
}

/// Decode a `SequenceState` record.
pub open spec fn spec_dec_sequence_state(s: Seq<u8>) -> Option<(SequenceState, Seq<u8>)> {
    match spec_dec_u64(s) {
            Some(a0) => match spec_dec_u8(a0.1) {
            Some(a1) => Some(((SequenceState { next_sequence: a0.0, bump: a1.0 }), a1.1)),
            None => None,
        },
            None => None,
        }
}

/// Decoding inverts encoding for a `SequenceState` record.
pub proof fn lemma_sequence_state_round_trip(x: SequenceState, rest: Seq<u8>)
    ensures
        spec_dec_sequence_state(spec_enc_sequence_state(x) + rest) == Some((x, rest)),
{
    lemma_prim_round_trip();
    let t1 = spec_enc_u8(x.bump) + rest;
    let t0 = spec_enc_u64(x.next_sequence) + t1;
    assert(spec_enc_sequence_state(x) + rest =~= t0);
}

/// Append a `SequenceState` record.
pub fn enc_sequence_state(out: &mut Vec<u8>, x: &SequenceState)
    ensures
        final(out)@ == old(out)@ + spec_enc_sequence_state(*x),
{
    enc_u64(out, x.next_sequence);
    enc_u8(out, x.bump);
    proof {
        assert(final(out)@ =~= old(out)@ + spec_enc_sequence_state(*x));
    }
}

/// Read a `SequenceState` record at `pos`.
pub fn dec_sequence_state(buf: &Vec<u8>, pos: usize) -> (r: Option<(SequenceState, usize)>)
    requires
        pos <= buf@.len(),
    ensures
        match r {
            Some(v) => pos <= v.1 <= buf@.len() && spec_dec_sequence_state(buf@.skip(pos as int)) == Some(
                (v.0, buf@.skip(v.1 as int)),
            ),
            None => spec_dec_sequence_state(buf@.skip(pos as int)) is None,
        },
{
    let a0 = match dec_u64(buf, pos) {
        Some(v) => v,
        None => { return None },
    };
    let a1 = match dec_u8(buf, a0.1) {
        Some(v) => v,
        None => { return None },
    };
    Some((SequenceState { next_sequence: a0.0, bump: a1.0 }, a1.1))
}

/// The canonical bytes of a `MarketStateV1` record.
pub open spec fn spec_enc_market_state(x: MarketStateV1) -> Seq<u8> {
    spec_enc_u8(x.version) + x._pad@ + spec_enc_pubkey(x.oracle) + spec_enc_pubkey(x.base_token) + spec_enc_u64(x.tick_size) + spec_enc_u64(x.last_bid) + spec_enc_u64(x.last_ask) + spec_enc_u64(x.last_mark_price) + spec_enc_u64(x.last_traded_price) + spec_enc_i64(x.open_interest) + spec_enc_i64(x.clearing_net_pos) + spec_enc_u64(x.clearing_entry_price) + spec_enc_i64(x.clearing_real_pnl) + spec_enc_u16(x.im_bps) + spec_enc_u16(x.mm_bps) + spec_enc_u64(x.min_order_size) + spec_enc_u64(x.max_order_size) + spec_enc_u64(x.max_oi_size) + spec_enc_u64(x.max_user_oi_size) + spec_enc_u16(x.fill_offset) + spec_enc_u32(x.current_log_page) + x._pad2@ + x._pad3@ + x._pad4@ + x._pad5@
}

/// Decode a `MarketStateV1` record.
pub open spec fn spec_dec_market_state(s: Seq<u8>) -> Option<(MarketStateV1, Seq<u8>)> {
    match spec_dec_u8(s) {
            Some(a0) => match spec_dec_arr::<128>(a0.1) {
            Some(a1) => match spec_dec_pubkey(a1.1) {
            Some(a2) => match spec_dec_pubkey(a2.1) {
            Some(a3) => match spec_dec_u64(a3.1) {
            Some(a4) => match spec_dec_u64(a4.1) {
            Some(a5) => match spec_dec_u64(a5.1) {
            Some(a6) => match spec_dec_u64(a6.1) {
            Some(a7) => match spec_dec_u64(a7.1) {
            Some(a8) => match spec_dec_i64(a8.1) {
            Some(a9) => match spec_dec_i64(a9.1) {
            Some(a10) => match spec_dec_u64(a10.1) {
            Some(a11) => match spec_dec_i64(a11.1) {
            Some(a12) => match spec_dec_u16(a12.1) {
            Some(a13) => match spec_dec_u16(a13.1) {
            Some(a14) => match spec_dec_u64(a14.1) {
            Some(a15) => match spec_dec_u64(a15.1) {
            Some(a16) => match spec_dec_u64(a16.1) {
            Some(a17) => match spec_dec_u64(a17.1) {
            Some(a18) => match spec_dec_u16(a18.1) {
            Some(a19) => match spec_dec_u32(a19.1) {
            Some(a20) => match spec_dec_arr::<16>(a20.1) {
            Some(a21) => match spec_dec_arr::<32>(a21.1) {
            Some(a22) => match spec_dec_arr::<32>(a22.1) {
            Some(a23) => match spec_dec_arr::<256>(a23.1) {
            Some(a24) => Some(((MarketStateV1 { version: a0.0, _pad: a1.0, oracle: a2.0, base_token: a3.0, tick_size: a4.0, last_bid: a5.0, last_ask: a6.0, last_mark_price: a7.0, last_traded_price: a8.0, open_interest: a9.0, clearing_net_pos: a10.0, clearing_entry_price: a11.0, clearing_real_pnl: a12.0, im_bps: a13.0, mm_bps: a14.0, min_order_size: a15.0, max_order_size: a16.0, max_oi_size: a17.0, max_user_oi_size: a18.0, fill_offset: a19.0, current_log_page: a20.0, _pad2: a21.0, _pad3: a22.0, _pad4: a23.0, _pad5: a24.0 }), a24.1)),
            None => None,
        },
            None => None,
        },
            None => None,
        },
            None => None,
        },
            None => None,
        },
            None => None,
        },
            None => None,
        },
            None => None,
        },
            None => None,
        },
            None => None,
        },
            None => None,
        },
            None => None,
        },
            None => None,
        },
            None => None,
        },
            None => None,
        },
            None => None,
        },
            None => None,
        },
            None => None,
        },
            None => None,
        },
            None => None,
        },
            None => None,
        },
            None => None,
        },
            None => None,
        },
            None => None,
        },
            None => None,
        }
}

/// Decoding inverts encoding for a `MarketStateV1` record.
#[verifier::rlimit(100)]
#[verifier::spinoff_prover]
pub proof fn lemma_market_state_round_trip(x: MarketStateV1, rest: Seq<u8>)
    ensures
        spec_dec_market_state(spec_enc_market_state(x) + rest) == Some((x, rest)),
{
    lemma_prim_round_trip();
    let t24 = x._pad5@ + rest;
    let t23 = x._pad4@ + t24;
    let t22 = x._pad3@ + t23;
    let t21 = x._pad2@ + t22;
    let t20 = spec_enc_u32(x.current_log_page) + t21;
    let t19 = spec_enc_u16(x.fill_offset) + t20;
    let t18 = spec_enc_u64(x.max_user_oi_size) + t19;
    let t17 = spec_enc_u64(x.max_oi_size) + t18;
    let t16 = spec_enc_u64(x.max_order_size) + t17;
    let t15 = spec_enc_u64(x.min_order_size) + t16;
    let t14 = spec_enc_u16(x.mm_bps) + t15;
    let t13 = spec_enc_u16(x.im_bps) + t14;
    let t12 = spec_enc_i64(x.clearing_real_pnl) + t13;
    let t11 = spec_enc_u64(x.clearing_entry_price) + t12;
    let t10 = spec_enc_i64(x.clearing_net_pos) + t11;
    let t9 = spec_enc_i64(x.open_interest) + t10;
    let t8 = spec_enc_u64(x.last_traded_price) + t9;
    let t7 = spec_enc_u64(x.last_mark_price) + t8;
    let t6 = spec_enc_u64(x.last_ask) + t7;
    let t5 = spec_enc_u64(x.last_bid) + t6;
    let t4 = spec_enc_u64(x.tick_size) + t5;
    let t3 = spec_enc_pubkey(x.base_token) + t4;
    let t2 = spec_enc_pubkey(x.oracle) + t3;
    let t1 = x._pad@ + t2;
    let t0 = spec_enc_u8(x.version) + t1;
    assert(spec_enc_market_state(x) == ((((((((((((((((((((((((spec_enc_u8(x.version) + x._pad@) + spec_enc_pubkey(x.oracle)) + spec_enc_pubkey(x.base_token)) + spec_enc_u64(x.tick_size)) + spec_enc_u64(x.last_bid)) + spec_enc_u64(x.last_ask)) + spec_enc_u64(x.last_mark_price)) + spec_enc_u64(x.last_traded_price)) + spec_enc_i64(x.open_interest)) + spec_enc_i64(x.clearing_net_pos)) + spec_enc_u64(x.clearing_entry_price)) + spec_enc_i64(x.clearing_real_pnl)) + spec_enc_u16(x.im_bps)) + spec_enc_u16(x.mm_bps)) + spec_enc_u64(x.min_order_size)) + spec_enc_u64(x.max_order_size)) + spec_enc_u64(x.max_oi_size)) + spec_enc_u64(x.max_user_oi_size)) + spec_enc_u16(x.fill_offset)) + spec_enc_u32(x.current_log_page)) + x._pad2@) + x._pad3@) + x._pad4@) + x._pad5@));
    lemma_app_assoc((((((((((((((((((((((((spec_enc_u8(x.version) + x._pad@) + spec_enc_pubkey(x.oracle)) + spec_enc_pubkey(x.base_token)) + spec_enc_u64(x.tick_size)) + spec_enc_u64(x.last_bid)) + spec_enc_u64(x.last_ask)) + spec_enc_u64(x.last_mark_price)) + spec_enc_u64(x.last_traded_price)) + spec_enc_i64(x.open_interest)) + spec_enc_i64(x.clearing_net_pos)) + spec_enc_u64(x.clearing_entry_price)) + spec_enc_i64(x.clearing_real_pnl)) + spec_enc_u16(x.im_bps)) + spec_enc_u16(x.mm_bps)) + spec_enc_u64(x.min_order_size)) + spec_enc_u64(x.max_order_size)) + spec_enc_u64(x.max_oi_size)) + spec_enc_u64(x.max_user_oi_size)) + spec_enc_u16(x.fill_offset)) + spec_enc_u32(x.current_log_page)) + x._pad2@) + x._pad3@) + x._pad4@), x._pad5@, rest);
    lemma_app_assoc(((((((((((((((((((((((spec_enc_u8(x.version) + x._pad@) + spec_enc_pubkey(x.oracle)) + spec_enc_pubkey(x.base_token)) + spec_enc_u64(x.tick_size)) + spec_enc_u64(x.last_bid)) + spec_enc_u64(x.last_ask)) + spec_enc_u64(x.last_mark_price)) + spec_enc_u64(x.last_traded_price)) + spec_enc_i64(x.open_interest)) + spec_enc_i64(x.clearing_net_pos)) + spec_enc_u64(x.clearing_entry_price)) + spec_enc_i64(x.clearing_real_pnl)) + spec_enc_u16(x.im_bps)) + spec_enc_u16(x.mm_bps)) + spec_enc_u64(x.min_order_size)) + spec_enc_u64(x.max_order_size)) + spec_enc_u64(x.max_oi_size)) + spec_enc_u64(x.max_user_oi_size)) + spec_enc_u16(x.fill_offset)) + spec_enc_u32(x.current_log_page)) + x._pad2@) + x._pad3@), x._pad4@, t24);
    lemma_app_assoc((((((((((((((((((((((spec_enc_u8(x.version) + x._pad@) + spec_enc_pubkey(x.oracle)) + spec_enc_pubkey(x.base_token)) + spec_enc_u64(x.tick_size)) + spec_enc_u64(x.last_bid)) + spec_enc_u64(x.last_ask)) + spec_enc_u64(x.last_mark_price)) + spec_enc_u64(x.last_traded_price)) + spec_enc_i64(x.open_interest)) + spec_enc_i64(x.clearing_net_pos)) + spec_enc_u64(x.clearing_entry_price)) + spec_enc_i64(x.clearing_real_pnl)) + spec_enc_u16(x.im_bps)) + spec_enc_u16(x.mm_bps)) + spec_enc_u64(x.min_order_size)) + spec_enc_u64(x.max_order_size)) + spec_enc_u64(x.max_oi_size)) + spec_enc_u64(x.max_user_oi_size)) + spec_enc_u16(x.fill_offset)) + spec_enc_u32(x.current_log_page)) + x._pad2@), x._pad3@, t23);
    lemma_app_assoc(((((((((((((((((((((spec_enc_u8(x.version) + x._pad@) + spec_enc_pubkey(x.oracle)) + spec_enc_pubkey(x.base_token)) + spec_enc_u64(x.tick_size)) + spec_enc_u64(x.last_bid)) + spec_enc_u64(x.last_ask)) + spec_enc_u64(x.last_mark_price)) + spec_enc_u64(x.last_traded_price)) + spec_enc_i64(x.open_interest)) + spec_enc_i64(x.clearing_net_pos)) + spec_enc_u64(x.clearing_entry_price)) + spec_enc_i64(x.clearing_real_pnl)) + spec_enc_u16(x.im_bps)) + spec_enc_u16(x.mm_bps)) + spec_enc_u64(x.min_order_size)) + spec_enc_u64(x.max_order_size)) + spec_enc_u64(x.max_oi_size)) + spec_enc_u64(x.max_user_oi_size)) + spec_enc_u16(x.fill_offset)) + spec_enc_u32(x.current_log_page)), x._pad2@, t22);
    lemma_app_assoc((((((((((((((((((((spec_enc_u8(x.version) + x._pad@) + spec_enc_pubkey(x.oracle)) + spec_enc_pubkey(x.base_token)) + spec_enc_u64(x.tick_size)) + spec_enc_u64(x.last_bid)) + spec_enc_u64(x.last_ask)) + spec_enc_u64(x.last_mark_price)) + spec_enc_u64(x.last_traded_price)) + spec_enc_i64(x.open_interest)) + spec_enc_i64(x.clearing_net_pos)) + spec_enc_u64(x.clearing_entry_price)) + spec_enc_i64(x.clearing_real_pnl)) + spec_enc_u16(x.im_bps)) + spec_enc_u16(x.mm_bps)) + spec_enc_u64(x.min_order_size)) + spec_enc_u64(x.max_order_size)) + spec_enc_u64(x.max_oi_size)) + spec_enc_u64(x.max_user_oi_size)) + spec_enc_u16(x.fill_offset)), spec_enc_u32(x.current_log_page), t21);
    lemma_app_assoc(((((((((((((((((((spec_enc_u8(x.version) + x._pad@) + spec_enc_pubkey(x.oracle)) + spec_enc_pubkey(x.base_token)) + spec_enc_u64(x.tick_size)) + spec_enc_u64(x.last_bid)) + spec_enc_u64(x.last_ask)) + spec_enc_u64(x.last_mark_price)) + spec_enc_u64(x.last_traded_price)) + spec_enc_i64(x.open_interest)) + spec_enc_i64(x.clearing_net_pos)) + spec_enc_u64(x.clearing_entry_price)) + spec_enc_i64(x.clearing_real_pnl)) + spec_enc_u16(x.im_bps)) + spec_enc_u16(x.mm_bps)) + spec_enc_u64(x.min_order_size)) + spec_enc_u64(x.max_order_size)) + spec_enc_u64(x.max_oi_size)) + spec_enc_u64(x.max_user_oi_size)), spec_enc_u16(x.fill_offset), t20);
    lemma_app_assoc((((((((((((((((((spec_enc_u8(x.version) + x._pad@) + spec_enc_pubkey(x.oracle)) + spec_enc_pubkey(x.base_token)) + spec_enc_u64(x.tick_size)) + spec_enc_u64(x.last_bid)) + spec_enc_u64(x.last_ask)) + spec_enc_u64(x.last_mark_price)) + spec_enc_u64(x.last_traded_price)) + spec_enc_i64(x.open_interest)) + spec_enc_i64(x.clearing_net_pos)) + spec_enc_u64(x.clearing_entry_price)) + spec_enc_i64(x.clearing_real_pnl)) + spec_enc_u16(x.im_bps)) + spec_enc_u16(x.mm_bps)) + spec_enc_u64(x.min_order_size)) + spec_enc_u64(x.max_order_size)) + spec_enc_u64(x.max_oi_size)), spec_enc_u64(x.max_user_oi_size), t19);
    lemma_app_assoc(((((((((((((((((spec_enc_u8(x.version) + x._pad@) + spec_enc_pubkey(x.oracle)) + spec_enc_pubkey(x.base_token)) + spec_enc_u64(x.tick_size)) + spec_enc_u64(x.last_bid)) + spec_enc_u64(x.last_ask)) + spec_enc_u64(x.last_mark_price)) + spec_enc_u64(x.last_traded_price)) + spec_enc_i64(x.open_interest)) + spec_enc_i64(x.clearing_net_pos)) + spec_enc_u64(x.clearing_entry_price)) + spec_enc_i64(x.clearing_real_pnl)) + spec_enc_u16(x.im_bps)) + spec_enc_u16(x.mm_bps)) + spec_enc_u64(x.min_order_size)) + spec_enc_u64(x.max_order_size)), spec_enc_u64(x.max_oi_size), t18);
    lemma_app_assoc((((((((((((((((spec_enc_u8(x.version) + x._pad@) + spec_enc_pubkey(x.oracle)) + spec_enc_pubkey(x.base_token)) + spec_enc_u64(x.tick_size)) + spec_enc_u64(x.last_bid)) + spec_enc_u64(x.last_ask)) + spec_enc_u64(x.last_mark_price)) + spec_enc_u64(x.last_traded_price)) + spec_enc_i64(x.open_interest)) + spec_enc_i64(x.clearing_net_pos)) + spec_enc_u64(x.clearing_entry_price)) + spec_enc_i64(x.clearing_real_pnl)) + spec_enc_u16(x.im_bps)) + spec_enc_u16(x.mm_bps)) + spec_enc_u64(x.min_order_size)), spec_enc_u64(x.max_order_size), t17);
    lemma_app_assoc(((((((((((((((spec_enc_u8(x.version) + x._pad@) + spec_enc_pubkey(x.oracle)) + spec_enc_pubkey(x.base_token)) + spec_enc_u64(x.tick_size)) + spec_enc_u64(x.last_bid)) + spec_enc_u64(x.last_ask)) + spec_enc_u64(x.last_mark_price)) + spec_enc_u64(x.last_traded_price)) + spec_enc_i64(x.open_interest)) + spec_enc_i64(x.clearing_net_pos)) + spec_enc_u64(x.clearing_entry_price)) + spec_enc_i64(x.clearing_real_pnl)) + spec_enc_u16(x.im_bps)) + spec_enc_u16(x.mm_bps)), spec_enc_u64(x.min_order_size), t16);
    lemma_app_assoc((((((((((((((spec_enc_u8(x.version) + x._pad@) + spec_enc_pubkey(x.oracle)) + spec_enc_pubkey(x.base_token)) + spec_enc_u64(x.tick_size)) + spec_enc_u64(x.last_bid)) + spec_enc_u64(x.last_ask)) + spec_enc_u64(x.last_mark_price)) + spec_enc_u64(x.last_traded_price)) + spec_enc_i64(x.open_interest)) + spec_enc_i64(x.clearing_net_pos)) + spec_enc_u64(x.clearing_entry_price)) + spec_enc_i64(x.clearing_real_pnl)) + spec_enc_u16(x.im_bps)), spec_enc_u16(x.mm_bps), t15);
    lemma_app_assoc(((((((((((((spec_enc_u8(x.version) + x._pad@) + spec_enc_pubkey(x.oracle)) + spec_enc_pubkey(x.base_token)) + spec_enc_u64(x.tick_size)) + spec_enc_u64(x.last_bid)) + spec_enc_u64(x.last_ask)) + spec_enc_u64(x.last_mark_price)) + spec_enc_u64(x.last_traded_price)) + spec_enc_i64(x.open_interest)) + spec_enc_i64(x.clearing_net_pos)) + spec_enc_u64(x.clearing_entry_price)) + spec_enc_i64(x.clearing_real_pnl)), spec_enc_u16(x.im_bps), t14);
    lemma_app_assoc((((((((((((spec_enc_u8(x.version) + x._pad@) + spec_enc_pubkey(x.oracle)) + spec_enc_pubkey(x.base_token)) + spec_enc_u64(x.tick_size)) + spec_enc_u64(x.last_bid)) + spec_enc_u64(x.last_ask)) + spec_enc_u64(x.last_mark_price)) + spec_enc_u64(x.last_traded_price)) + spec_enc_i64(x.open_interest)) + spec_enc_i64(x.clearing_net_pos)) + spec_enc_u64(x.clearing_entry_price)), spec_enc_i64(x.clearing_real_pnl), t13);
    lemma_app_assoc(((((((((((spec_enc_u8(x.version) + x._pad@) + spec_enc_pubkey(x.oracle)) + spec_enc_pubkey(x.base_token)) + spec_enc_u64(x.tick_size)) + spec_enc_u64(x.last_bid)) + spec_enc_u64(x.last_ask)) + spec_enc_u64(x.last_mark_price)) + spec_enc_u64(x.last_traded_price)) + spec_enc_i64(x.open_interest)) + spec_enc_i64(x.clearing_net_pos)), spec_enc_u64(x.clearing_entry_price), t12);
    lemma_app_assoc((((((((((spec_enc_u8(x.version) + x._pad@) + spec_enc_pubkey(x.oracle)) + spec_enc_pubkey(x.base_token)) + spec_enc_u64(x.tick_size)) + spec_enc_u64(x.last_bid)) + spec_enc_u64(x.last_ask)) + spec_enc_u64(x.last_mark_price)) + spec_enc_u64(x.last_traded_price)) + spec_enc_i64(x.open_interest)), spec_enc_i64(x.clearing_net_pos), t11);
    lemma_app_assoc(((((((((spec_enc_u8(x.version) + x._pad@) + spec_enc_pubkey(x.oracle)) + spec_enc_pubkey(x.base_token)) + spec_enc_u64(x.tick_size)) + spec_enc_u64(x.last_bid)) + spec_enc_u64(x.last_ask)) + spec_enc_u64(x.last_mark_price)) + spec_enc_u64(x.last_traded_price)), spec_enc_i64(x.open_interest), t10);
    lemma_app_assoc((((((((spec_enc_u8(x.version) + x._pad@) + spec_enc_pubkey(x.oracle)) + spec_enc_pubkey(x.base_token)) + spec_enc_u64(x.tick_size)) + spec_enc_u64(x.last_bid)) + spec_enc_u64(x.last_ask)) + spec_enc_u64(x.last_mark_price)), spec_enc_u64(x.last_traded_price), t9);
    lemma_app_assoc(((((((spec_enc_u8(x.version) + x._pad@) + spec_enc_pubkey(x.oracle)) + spec_enc_pubkey(x.base_token)) + spec_enc_u64(x.tick_size)) + spec_enc_u64(x.last_bid)) + spec_enc_u64(x.last_ask)), spec_enc_u64(x.last_mark_price), t8);
    lemma_app_assoc((((((spec_enc_u8(x.version) + x._pad@) + spec_enc_pubkey(x.oracle)) + spec_enc_pubkey(x.base_token)) + spec_enc_u64(x.tick_size)) + spec_enc_u64(x.last_bid)), spec_enc_u64(x.last_ask), t7);
    lemma_app_assoc(((((spec_enc_u8(x.version) + x._pad@) + spec_enc_pubkey(x.oracle)) + spec_enc_pubkey(x.base_token)) + spec_enc_u64(x.tick_size)), spec_enc_u64(x.last_bid), t6);
    lemma_app_assoc((((spec_enc_u8(x.version) + x._pad@) + spec_enc_pubkey(x.oracle)) + spec_enc_pubkey(x.base_token)), spec_enc_u64(x.tick_size), t5);
    lemma_app_assoc(((spec_enc_u8(x.version) + x._pad@) + spec_enc_pubkey(x.oracle)), spec_enc_pubkey(x.base_token), t4);
    lemma_app_assoc((spec_enc_u8(x.version) + x._pad@), spec_enc_pubkey(x.oracle), t3);
    lemma_app_assoc(spec_enc_u8(x.version), x._pad@, t2);
    assert(spec_enc_market_state(x) + rest == t0);
    assert(spec_dec_u8(t0) == Some((x.version, t1)));
    lemma_arr_round_trip::<128>(x._pad, t2);
    assert(spec_dec_arr::<128>(t1) == Some((x._pad, t2)));
    assert(spec_dec_pubkey(t2) == Some((x.oracle, t3)));
    assert(spec_dec_pubkey(t3) == Some((x.base_token, t4)));
    assert(spec_dec_u64(t4) == Some((x.tick_size, t5)));
    assert(spec_dec_u64(t5) == Some((x.last_bid, t6)));
    assert(spec_dec_u64(t6) == Some((x.last_ask, t7)));
    assert(spec_dec_u64(t7) == Some((x.last_mark_price, t8)));
    assert(spec_dec_u64(t8) == Some((x.last_traded_price, t9)));
    assert(spec_dec_i64(t9) == Some((x.open_interest, t10)));
    assert(spec_dec_i64(t10) == Some((x.clearing_net_pos, t11)));
    assert(spec_dec_u64(t11) == Some((x.clearing_entry_price, t12)));
    assert(spec_dec_i64(t12) == Some((x.clearing_real_pnl, t13)));
    assert(spec_dec_u16(t13) == Some((x.im_bps, t14)));
    assert(spec_dec_u16(t14) == Some((x.mm_bps, t15)));
    assert(spec_dec_u64(t15) == Some((x.min_order_size, t16)));
    assert(spec_dec_u64(t16) == Some((x.max_order_size, t17)));
    assert(spec_dec_u64(t17) == Some((x.max_oi_size, t18)));
    assert(spec_dec_u64(t18) == Some((x.max_user_oi_size, t19)));
    assert(spec_dec_u16(t19) == Some((x.fill_offset, t20)));
    assert(spec_dec_u32(t20) == Some((x.current_log_page, t21)));
    lemma_arr_round_trip::<16>(x._pad2, t22);
    assert(spec_dec_arr::<16>(t21) == Some((x._pad2, t22)));
    lemma_arr_round_trip::<32>(x._pad3, t23);
    assert(spec_dec_arr::<32>(t22) == Some((x._pad3, t23)));
    lemma_arr_round_trip::<32>(x._pad4, t24);
    assert(spec_dec_arr::<32>(t23) == Some((x._pad4, t24)));
    lemma_arr_round_trip::<256>(x._pad5, rest);
    assert(spec_dec_arr::<256>(t24) == Some((x._pad5, rest)));
}

/// Append a `MarketStateV1` record.
#[verifier::rlimit(100)]
#[verifier::spinoff_prover]
pub fn enc_market_state(out: &mut Vec<u8>, x: &MarketStateV1)
    ensures
        final(out)@ == old(out)@ + spec_enc_market_state(*x),
{
    enc_u8(out, x.version);
    enc_bytes_n(out, &x._pad);
    enc_pubkey(out, &x.oracle);
    enc_pubkey(out, &x.base_token);
    enc_u64(out, x.tick_size);
    enc_u64(out, x.last_bid);
    enc_u64(out, x.last_ask);
    enc_u64(out, x.last_mark_price);
    enc_u64(out, x.last_traded_price);
    enc_i64(out, x.open_interest);
    enc_i64(out, x.clearing_net_pos);
    enc_u64(out, x.clearing_entry_price);
    enc_i64(out, x.clearing_real_pnl);
    enc_u16(out, x.im_bps);
    enc_u16(out, x.mm_bps);
    enc_u64(out, x.min_order_size);
    enc_u64(out, x.max_order_size);
    enc_u64(out, x.max_oi_size);
    enc_u64(out, x.max_user_oi_size);
    enc_u16(out, x.fill_offset);
    enc_u32(out, x.current_log_page);
    enc_bytes_n(out, &x._pad2);
    enc_bytes_n(out, &x._pad3);
    enc_bytes_n(out, &x._pad4);
    enc_bytes_n(out, &x._pad5);
    proof {
        assert(final(out)@ =~= old(out)@ + spec_enc_market_state(*x));
    }
}

/// Read a `MarketStateV1` record at `pos`.
#[verifier::rlimit(100)]
#[verifier::spinoff_prover]
pub fn dec_market_state(buf: &Vec<u8>, pos: usize) -> (r: Option<(MarketStateV1, usize)>)
    requires
        pos <= buf@.len(),
    ensures
        match r {
            Some(v) => pos <= v.1 <= buf@.len() && spec_dec_market_state(buf@.skip(pos as int)) == Some(
                (v.0, buf@.skip(v.1 as int)),
            ),
            None => spec_dec_market_state(buf@.skip(pos as int)) is None,
        },
{
    let a0 = match dec_u8(buf, pos) {
        Some(v) => v,
        None => { return None },
    };
    let a1 = match dec_bytes_n::<128>(buf, a0.1) {
        Some(v) => v,
        None => { return None },
    };
    let a2 = match dec_pubkey(buf, a1.1) {
        Some(v) => v,
        None => { return None },
    };
    let a3 = match dec_pubkey(buf, a2.1) {
        Some(v) => v,
        None => { return None },
    };
    let a4 = match dec_u64(buf, a3.1) {
        Some(v) => v,
        None => { return None },
    };
    let a5 = match dec_u64(buf, a4.1) {
        Some(v) => v,
        None => { return None },
    };
    let a6 = match dec_u64(buf, a5.1) {
        Some(v) => v,
        None => { return None },
    };
    let a7 = match dec_u64(buf, a6.1) {
        Some(v) => v,
        None => { return None },
    };
    let a8 = match dec_u64(buf, a7.1) {
        Some(v) => v,
        None => { return None },
    };
    let a9 = match dec_i64(buf, a8.1) {
        Some(v) => v,
        None => { return None },
    };
    let a10 = match dec_i64(buf, a9.1) {
        Some(v) => v,
        None => { return None },
    };
    let a11 = match dec_u64(buf, a10.1) {
        Some(v) => v,
        None => { return None },
    };
    let a12 = match dec_i64(buf, a11.1) {
        Some(v) => v,
        None => { return None },
    };
    let a13 = match dec_u16(buf, a12.1) {
        Some(v) => v,
        None => { return None },
    };
    let a14 = match dec_u16(buf, a13.1) {
        Some(v) => v,
        None => { return None },
    };
    let a15 = match dec_u64(buf, a14.1) {
        Some(v) => v,
        None => { return None },
    };
    let a16 = match dec_u64(buf, a15.1) {
        Some(v) => v,
        None => { return None },
    };
    let a17 = match dec_u64(buf, a16.1) {
        Some(v) => v,
        None => { return None },
    };
    let a18 = match dec_u64(buf, a17.1) {
        Some(v) => v,
        None => { return None },
    };
    let a19 = match dec_u16(buf, a18.1) {
        Some(v) => v,
        None => { return None },
    };
    let a20 = match dec_u32(buf, a19.1) {
        Some(v) => v,
        None => { return None },
    };
    let a21 = match dec_bytes_n::<16>(buf, a20.1) {
        Some(v) => v,
        None => { return None },
    };
    let a22 = match dec_bytes_n::<32>(buf, a21.1) {
        Some(v) => v,
        None => { return None },
    };
    let a23 = match dec_bytes_n::<32>(buf, a22.1) {
        Some(v) => v,
        None => { return None },
    };
    let a24 = match dec_bytes_n::<256>(buf, a23.1) {
        Some(v) => v,
        None => { return None },
    };
    Some((MarketStateV1 { version: a0.0, _pad: a1.0, oracle: a2.0, base_token: a3.0, tick_size: a4.0, last_bid: a5.0, last_ask: a6.0, last_mark_price: a7.0, last_traded_price: a8.0, open_interest: a9.0, clearing_net_pos: a10.0, clearing_entry_price: a11.0, clearing_real_pnl: a12.0, im_bps: a13.0, mm_bps: a14.0, min_order_size: a15.0, max_order_size: a16.0, max_oi_size: a17.0, max_user_oi_size: a18.0, fill_offset: a19.0, current_log_page: a20.0, _pad2: a21.0, _pad3: a22.0, _pad4: a23.0, _pad5: a24.0 }, a24.1))
}

} // verus!
