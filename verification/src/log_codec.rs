//! Canonical byte encoding of the market-order-log records.
//!
//! Log entries snapshot an order record plus fill details; each type
//! carries a specification encoder, a specification decoder inverting it,
//! and executable functions proved against the pair.

use vstd::prelude::*;

use crate::cma::CmaFillResult;
use crate::codec::dec_i64;
use crate::codec::dec_pubkey;
use crate::codec::dec_u64;
use crate::codec::dec_u8;
use crate::codec::enc_i64;
use crate::codec::enc_pubkey;
use crate::codec::enc_u64;
use crate::codec::enc_u8;
use crate::codec::lemma_prim_round_trip;
use crate::codec::lemma_prim_sound;
use crate::codec::spec_dec_i64;
use crate::codec::spec_dec_pubkey;
use crate::codec::spec_dec_u64;
use crate::codec::spec_dec_u8;
use crate::codec::spec_enc_i64;
use crate::codec::spec_enc_pubkey;
use crate::codec::spec_enc_u64;
use crate::codec::spec_enc_u8;
use crate::keys::Pubkey;
use crate::market_order_log::FillLogDetails;
use crate::market_order_log::OrderLogEntry;
use crate::market_order_log::OrderUpdateType;
use crate::order::OrderDetails;
use crate::order_codec::dec_order_details;
use crate::order_codec::lemma_app_assoc;
use crate::order_codec::lemma_arr_round_trip;
use crate::order_codec::lemma_arr_sound;
use crate::order_codec::lemma_order_details_sound;
use crate::order_codec::spec_dec_arr;
use crate::order_codec::enc_order_details;
use crate::order_codec::lemma_order_details_round_trip;
use crate::order_codec::spec_dec_order_details;
use crate::order_codec::spec_enc_order_details;

verus! {

/// The canonical bytes of an `OrderUpdateType`.
pub open spec fn spec_enc_update_type(x: OrderUpdateType) -> Seq<u8> {
    match x {
        OrderUpdateType::OrderEntry => spec_enc_u8(0),
        OrderUpdateType::Cancel => spec_enc_u8(1),
        OrderUpdateType::Fill => spec_enc_u8(2),
        OrderUpdateType::Liquidation => spec_enc_u8(3),
        OrderUpdateType::ClosePosition => spec_enc_u8(4),
        OrderUpdateType::UserCollateralUpdate => spec_enc_u8(5),
        OrderUpdateType::Reserved(a0) => spec_enc_u8(6) + spec_enc_u8(a0),
    }
}

/// Decode an `OrderUpdateType`.
pub open spec fn spec_dec_update_type(s: Seq<u8>) -> Option<(OrderUpdateType, Seq<u8>)> {
    match spec_dec_u8(s) {
        Some(t) =>
        if t.0 == 0 {
            Some((OrderUpdateType::OrderEntry, t.1))
        }
        else if t.0 == 1 {
            Some((OrderUpdateType::Cancel, t.1))
        }
        else if t.0 == 2 {
            Some((OrderUpdateType::Fill, t.1))
        }
        else if t.0 == 3 {
            Some((OrderUpdateType::Liquidation, t.1))
        }
        else if t.0 == 4 {
            Some((OrderUpdateType::ClosePosition, t.1))
        }
        else if t.0 == 5 {
            Some((OrderUpdateType::UserCollateralUpdate, t.1))
        }
        else if t.0 == 6 {
            match spec_dec_u8(t.1) {
            Some(a0) => Some((OrderUpdateType::Reserved(a0.0), a0.1)),
            None => None,
        }
        }
        else {
            None
        },
        None => None,
    }
}

/// Decoding inverts encoding for an `OrderUpdateType`.
pub proof fn lemma_update_type_round_trip(x: OrderUpdateType, rest: Seq<u8>)
    ensures
        spec_dec_update_type(spec_enc_update_type(x) + rest) == Some((x, rest)),
{
    lemma_prim_round_trip();
    match x {
        OrderUpdateType::OrderEntry => {
            assert(spec_enc_update_type(x) + rest =~= spec_enc_u8(0) + rest);
        },
        OrderUpdateType::Cancel => {
            assert(spec_enc_update_type(x) + rest =~= spec_enc_u8(1) + rest);
        },
        OrderUpdateType::Fill => {
            assert(spec_enc_update_type(x) + rest =~= spec_enc_u8(2) + rest);
        },
        OrderUpdateType::Liquidation => {
            assert(spec_enc_update_type(x) + rest =~= spec_enc_u8(3) + rest);
        },
        OrderUpdateType::ClosePosition => {
            assert(spec_enc_update_type(x) + rest =~= spec_enc_u8(4) + rest);
        },
        OrderUpdateType::UserCollateralUpdate => {
            assert(spec_enc_update_type(x) + rest =~= spec_enc_u8(5) + rest);
        },
        OrderUpdateType::Reserved(a0) => {
            let t0 = spec_enc_u8(a0) + rest;
            assert(spec_enc_update_type(x) + rest =~= spec_enc_u8(6) + t0);
        },
    }
}

/// Append an `OrderUpdateType`.
pub fn enc_update_type(out: &mut Vec<u8>, x: &OrderUpdateType)
    ensures
        final(out)@ == old(out)@ + spec_enc_update_type(*x),
{
    match x {
        OrderUpdateType::OrderEntry => {
            enc_u8(out, 0);
        },
        OrderUpdateType::Cancel => {
            enc_u8(out, 1);
        },
        OrderUpdateType::Fill => {
            enc_u8(out, 2);
        },
        OrderUpdateType::Liquidation => {
            enc_u8(out, 3);
        },
        OrderUpdateType::ClosePosition => {
            enc_u8(out, 4);
        },
        OrderUpdateType::UserCollateralUpdate => {
            enc_u8(out, 5);
        },
        OrderUpdateType::Reserved(a0) => {
            enc_u8(out, 6);
            enc_u8(out, *a0);
        },
    }
    proof {
        assert(final(out)@ =~= old(out)@ + spec_enc_update_type(*x));
    }
}

/// Read an `OrderUpdateType` at `pos`.
pub fn dec_update_type(buf: &Vec<u8>, pos: usize) -> (r: Option<(OrderUpdateType, usize)>)
    requires
        pos <= buf@.len(),
    ensures
        match r {
            Some(v) => pos <= v.1 <= buf@.len() && spec_dec_update_type(buf@.skip(pos as int)) == Some(
                (v.0, buf@.skip(v.1 as int)),
            ),
            None => spec_dec_update_type(buf@.skip(pos as int)) is None,
        },
{
    let t = match dec_u8(buf, pos) {
        Some(v) => v,
        None => { return None },
    };
        if t.0 == 0 {
            Some((OrderUpdateType::OrderEntry, t.1))
        }
        else if t.0 == 1 {
            Some((OrderUpdateType::Cancel, t.1))
        }
        else if t.0 == 2 {
            Some((OrderUpdateType::Fill, t.1))
        }
        else if t.0 == 3 {
            Some((OrderUpdateType::Liquidation, t.1))
        }
        else if t.0 == 4 {
            Some((OrderUpdateType::ClosePosition, t.1))
        }
        else if t.0 == 5 {
            Some((OrderUpdateType::UserCollateralUpdate, t.1))
        }
        else if t.0 == 6 {
            let a0 = match dec_u8(buf, t.1) {
                Some(v) => v,
                None => { return None },
            };
            Some((OrderUpdateType::Reserved(a0.0), a0.1))
        }
    else {
        None
    }
}

/// The canonical bytes of a `CmaFillResult`.
pub open spec fn spec_enc_cma_fill_result(x: CmaFillResult) -> Seq<u8> {
    spec_enc_i64(x.new_net_position) + spec_enc_i64(x.old_net_position) + spec_enc_i64(x.realized_pnl_banked)
}

/// Decode a `CmaFillResult`.
pub open spec fn spec_dec_cma_fill_result(s: Seq<u8>) -> Option<(CmaFillResult, Seq<u8>)> {
    match spec_dec_i64(s) {
            Some(a0) => match spec_dec_i64(a0.1) {
            Some(a1) => match spec_dec_i64(a1.1) {
            Some(a2) => Some(((CmaFillResult { new_net_position: a0.0, old_net_position: a1.0, realized_pnl_banked: a2.0 }), a2.1)),
            None => None,
        },
            None => None,
        },
            None => None,
        }
}

/// Decoding inverts encoding for a `CmaFillResult`.
pub proof fn lemma_cma_fill_result_round_trip(x: CmaFillResult, rest: Seq<u8>)
    ensures
        spec_dec_cma_fill_result(spec_enc_cma_fill_result(x) + rest) == Some((x, rest)),
{
    lemma_prim_round_trip();
    let t2 = spec_enc_i64(x.realized_pnl_banked) + rest;
    let t1 = spec_enc_i64(x.old_net_position) + t2;
    let t0 = spec_enc_i64(x.new_net_position) + t1;
    assert(spec_enc_cma_fill_result(x) + rest =~= t0);
}

/// Append a `CmaFillResult`.
pub fn enc_cma_fill_result(out: &mut Vec<u8>, x: &CmaFillResult)
    ensures
        final(out)@ == old(out)@ + spec_enc_cma_fill_result(*x),
{
    enc_i64(out, x.new_net_position);
    enc_i64(out, x.old_net_position);
    enc_i64(out, x.realized_pnl_banked);
    proof {
        assert(final(out)@ =~= old(out)@ + spec_enc_cma_fill_result(*x));
    }
}

/// Read a `CmaFillResult` at `pos`.
pub fn dec_cma_fill_result(buf: &Vec<u8>, pos: usize) -> (r: Option<(CmaFillResult, usize)>)
    requires
        pos <= buf@.len(),
    ensures
        match r {
            Some(v) => pos <= v.1 <= buf@.len() && spec_dec_cma_fill_result(buf@.skip(pos as int)) == Some(
                (v.0, buf@.skip(v.1 as int)),
            ),
            None => spec_dec_cma_fill_result(buf@.skip(pos as int)) is None,
        },
{
    let a0 = match dec_i64(buf, pos) {
        Some(v) => v,
        None => { return None },
    };
    let a1 = match dec_i64(buf, a0.1) {
        Some(v) => v,
        None => { return None },
    };
    let a2 = match dec_i64(buf, a1.1) {
        Some(v) => v,
        None => { return None },
    };
    Some((CmaFillResult { new_net_position: a0.0, old_net_position: a1.0, realized_pnl_banked: a2.0 }, a2.1))
}

/// The canonical bytes of a `FillLogDetails`.
pub open spec fn spec_enc_fill_log_details(x: FillLogDetails) -> Seq<u8> {
    spec_enc_u64(x.price) + spec_enc_u64(x.qty) + spec_enc_cma_fill_result(x.account)
}

/// Decode a `FillLogDetails`.
pub open spec fn spec_dec_fill_log_details(s: Seq<u8>) -> Option<(FillLogDetails, Seq<u8>)> {
    match spec_dec_u64(s) {
            Some(a0) => match spec_dec_u64(a0.1) {
            Some(a1) => match spec_dec_cma_fill_result(a1.1) {
            Some(a2) => Some(((FillLogDetails { price: a0.0, qty: a1.0, account: a2.0 }), a2.1)),
            None => None,
        },
            None => None,
        },
            None => None,
        }
}

/// Decoding inverts encoding for a `FillLogDetails`.
pub proof fn lemma_fill_log_details_round_trip(x: FillLogDetails, rest: Seq<u8>)
    ensures
        spec_dec_fill_log_details(spec_enc_fill_log_details(x) + rest) == Some((x, rest)),
{
    lemma_prim_round_trip();
    let t2 = spec_enc_cma_fill_result(x.account) + rest;
    let t1 = spec_enc_u64(x.qty) + t2;
    let t0 = spec_enc_u64(x.price) + t1;
    assert(spec_enc_fill_log_details(x) + rest =~= t0);
    lemma_cma_fill_result_round_trip(x.account, rest);
}

/// Append a `FillLogDetails`.
pub fn enc_fill_log_details(out: &mut Vec<u8>, x: &FillLogDetails)
    ensures
        final(out)@ == old(out)@ + spec_enc_fill_log_details(*x),
{
    enc_u64(out, x.price);
    enc_u64(out, x.qty);
    enc_cma_fill_result(out, &x.account);
    proof {
        assert(final(out)@ =~= old(out)@ + spec_enc_fill_log_details(*x));
    }
}

/// Read a `FillLogDetails` at `pos`.
pub fn dec_fill_log_details(buf: &Vec<u8>, pos: usize) -> (r: Option<(FillLogDetails, usize)>)
    requires
        pos <= buf@.len(),
    ensures
        match r {
            Some(v) => pos <= v.1 <= buf@.len() && spec_dec_fill_log_details(buf@.skip(pos as int)) == Some(
                (v.0, buf@.skip(v.1 as int)),
            ),
            None => spec_dec_fill_log_details(buf@.skip(pos as int)) is None,
        },
{
    let a0 = match dec_u64(buf, pos) {
        Some(v) => v,
        None => { return None },
    };
    let a1 = match dec_u64(buf, a0.1) {
        Some(v) => v,
        None => { return None },
    };
    let a2 = match dec_cma_fill_result(buf, a1.1) {
        Some(v) => v,
        None => { return None },
    };
    Some((FillLogDetails { price: a0.0, qty: a1.0, account: a2.0 }, a2.1))
}

/// The canonical bytes of an `OrderLogEntry`.
pub open spec fn spec_enc_log_entry(x: OrderLogEntry) -> Seq<u8> {
    spec_enc_pubkey(x.user) + spec_enc_u64(x.order_id) + spec_enc_update_type(x.update_type) + spec_enc_order_details(x.order_details) + spec_enc_fill_log_details(x.fill_details) + spec_enc_u64(x.slot)
}

/// Decode an `OrderLogEntry`.
pub open spec fn spec_dec_log_entry(s: Seq<u8>) -> Option<(OrderLogEntry, Seq<u8>)> {
    match spec_dec_pubkey(s) {
            Some(a0) => match spec_dec_u64(a0.1) {
            Some(a1) => match spec_dec_update_type(a1.1) {
            Some(a2) => match spec_dec_order_details(a2.1) {
            Some(a3) => match spec_dec_fill_log_details(a3.1) {
            Some(a4) => match spec_dec_u64(a4.1) {
            Some(a5) => Some(((OrderLogEntry { user: a0.0, order_id: a1.0, update_type: a2.0, order_details: a3.0, fill_details: a4.0, slot: a5.0 }), a5.1)),
            None => None,
        },
            None => None,
        },
            None => None,
        },
            None => None,
        },
            None => None,
        },
            None => None,
        }
}

/// Decoding inverts encoding for an `OrderLogEntry`.
#[verifier::rlimit(100)]
#[verifier::spinoff_prover]
pub proof fn lemma_log_entry_round_trip(x: OrderLogEntry, rest: Seq<u8>)
    ensures
        spec_dec_log_entry(spec_enc_log_entry(x) + rest) == Some((x, rest)),
{
    lemma_prim_round_trip();
    let t5 = spec_enc_u64(x.slot) + rest;
    let t4 = spec_enc_fill_log_details(x.fill_details) + t5;
    let t3 = spec_enc_order_details(x.order_details) + t4;
    let t2 = spec_enc_update_type(x.update_type) + t3;
    let t1 = spec_enc_u64(x.order_id) + t2;
    let t0 = spec_enc_pubkey(x.user) + t1;
    assert(spec_enc_log_entry(x) + rest =~= t0);
    lemma_update_type_round_trip(x.update_type, t3);
    lemma_order_details_round_trip(x.order_details, t4);
    lemma_fill_log_details_round_trip(x.fill_details, t5);
}

/// Append an `OrderLogEntry`.
pub fn enc_log_entry(out: &mut Vec<u8>, x: &OrderLogEntry)
    ensures
        final(out)@ == old(out)@ + spec_enc_log_entry(*x),
{
    enc_pubkey(out, &x.user);
    enc_u64(out, x.order_id);
    enc_update_type(out, &x.update_type);
    enc_order_details(out, &x.order_details);
    enc_fill_log_details(out, &x.fill_details);
    enc_u64(out, x.slot);
    proof {
        assert(final(out)@ =~= old(out)@ + spec_enc_log_entry(*x));
    }
}

/// Read an `OrderLogEntry` at `pos`.
pub fn dec_log_entry(buf: &Vec<u8>, pos: usize) -> (r: Option<(OrderLogEntry, usize)>)
    requires
        pos <= buf@.len(),
    ensures
        match r {
            Some(v) => pos <= v.1 <= buf@.len() && spec_dec_log_entry(buf@.skip(pos as int)) == Some(
                (v.0, buf@.skip(v.1 as int)),
            ),
            None => spec_dec_log_entry(buf@.skip(pos as int)) is None,
        },
{
    let a0 = match dec_pubkey(buf, pos) {
        Some(v) => v,
        None => { return None },
    };
    let a1 = match dec_u64(buf, a0.1) {
        Some(v) => v,
        None => { return None },
    };
    let a2 = match dec_update_type(buf, a1.1) {
        Some(v) => v,
        None => { return None },
    };
    let a3 = match dec_order_details(buf, a2.1) {
        Some(v) => v,
        None => { return None },
    };
    let a4 = match dec_fill_log_details(buf, a3.1) {
        Some(v) => v,
        None => { return None },
    };
    let a5 = match dec_u64(buf, a4.1) {
        Some(v) => v,
        None => { return None },
    };
    Some((OrderLogEntry { user: a0.0, order_id: a1.0, update_type: a2.0, order_details: a3.0, fill_details: a4.0, slot: a5.0 }, a5.1))
}

/// A successful decode consumed exactly the canonical bytes of its
/// result, for an `OrderUpdateType`.
pub proof fn lemma_update_type_sound(s: Seq<u8>)
    requires
        spec_dec_update_type(s) is Some,
    ensures
        ({
            let v = spec_dec_update_type(s)->Some_0;
            s == spec_enc_update_type(v.0) + v.1
        }),
{
    lemma_prim_sound();
    let t = spec_dec_u8(s)->Some_0;
    assert(s =~= spec_enc_u8(t.0) + t.1);
    if t.0 == 0 {
        assert(spec_enc_update_type(spec_dec_update_type(s)->Some_0.0) == spec_enc_u8(0));
    }
    else if t.0 == 1 {
        assert(spec_enc_update_type(spec_dec_update_type(s)->Some_0.0) == spec_enc_u8(1));
    }
    else if t.0 == 2 {
        assert(spec_enc_update_type(spec_dec_update_type(s)->Some_0.0) == spec_enc_u8(2));
    }
    else if t.0 == 3 {
        assert(spec_enc_update_type(spec_dec_update_type(s)->Some_0.0) == spec_enc_u8(3));
    }
    else if t.0 == 4 {
        assert(spec_enc_update_type(spec_dec_update_type(s)->Some_0.0) == spec_enc_u8(4));
    }
    else if t.0 == 5 {
        assert(spec_enc_update_type(spec_dec_update_type(s)->Some_0.0) == spec_enc_u8(5));
    }
    else if t.0 == 6 {
        let a0 = spec_dec_u8(t.1)->Some_0;
        assert(s =~= spec_enc_u8(6) + t.1);
        lemma_app_assoc(spec_enc_u8(6), spec_enc_u8(a0.0), a0.1);
        assert(s =~= (spec_enc_u8(6) + spec_enc_u8(a0.0)) + a0.1);
        assert(spec_enc_update_type(spec_dec_update_type(s)->Some_0.0) == (spec_enc_u8(6) + spec_enc_u8(a0.0)));
    }
}

/// A successful decode consumed exactly the canonical bytes of its
/// result, for a `CmaFillResult`.
pub proof fn lemma_cma_fill_result_sound(s: Seq<u8>)
    requires
        spec_dec_cma_fill_result(s) is Some,
    ensures
        ({
            let v = spec_dec_cma_fill_result(s)->Some_0;
            s == spec_enc_cma_fill_result(v.0) + v.1
        }),
{
    lemma_prim_sound();
    let a0 = spec_dec_i64(s)->Some_0;
    let a1 = spec_dec_i64(a0.1)->Some_0;
    let a2 = spec_dec_i64(a1.1)->Some_0;
    assert(s =~= spec_enc_i64(a0.0) + a0.1);
    lemma_app_assoc(spec_enc_i64(a0.0), spec_enc_i64(a1.0), a1.1);
    assert(s =~= (spec_enc_i64(a0.0) + spec_enc_i64(a1.0)) + a1.1);
    lemma_app_assoc((spec_enc_i64(a0.0) + spec_enc_i64(a1.0)), spec_enc_i64(a2.0), a2.1);
    assert(s =~= ((spec_enc_i64(a0.0) + spec_enc_i64(a1.0)) + spec_enc_i64(a2.0)) + a2.1);
    assert(spec_enc_cma_fill_result(spec_dec_cma_fill_result(s)->Some_0.0) == ((spec_enc_i64(a0.0) + spec_enc_i64(a1.0)) + spec_enc_i64(a2.0)));
}

/// A successful decode consumed exactly the canonical bytes of its
/// result, for a `FillLogDetails`.
pub proof fn lemma_fill_log_details_sound(s: Seq<u8>)
    requires
        spec_dec_fill_log_details(s) is Some,
    ensures
        ({
            let v = spec_dec_fill_log_details(s)->Some_0;
            s == spec_enc_fill_log_details(v.0) + v.1
        }),
{
    lemma_prim_sound();
    let a0 = spec_dec_u64(s)->Some_0;
    let a1 = spec_dec_u64(a0.1)->Some_0;
    let a2 = spec_dec_cma_fill_result(a1.1)->Some_0;
    lemma_cma_fill_result_sound(a1.1);
    assert(s =~= spec_enc_u64(a0.0) + a0.1);
    lemma_app_assoc(spec_enc_u64(a0.0), spec_enc_u64(a1.0), a1.1);
    assert(s =~= (spec_enc_u64(a0.0) + spec_enc_u64(a1.0)) + a1.1);
    lemma_app_assoc((spec_enc_u64(a0.0) + spec_enc_u64(a1.0)), spec_enc_cma_fill_result(a2.0), a2.1);
    assert(s =~= ((spec_enc_u64(a0.0) + spec_enc_u64(a1.0)) + spec_enc_cma_fill_result(a2.0)) + a2.1);
    assert(spec_enc_fill_log_details(spec_dec_fill_log_details(s)->Some_0.0) == ((spec_enc_u64(a0.0) + spec_enc_u64(a1.0)) + spec_enc_cma_fill_result(a2.0)));
}

/// A successful decode consumed exactly the canonical bytes of its
/// result, for an `OrderLogEntry`.
#[verifier::rlimit(100)]
#[verifier::spinoff_prover]
pub proof fn lemma_log_entry_sound(s: Seq<u8>)
    requires
        spec_dec_log_entry(s) is Some,
    ensures
        ({
            let v = spec_dec_log_entry(s)->Some_0;
            s == spec_enc_log_entry(v.0) + v.1
        }),
{
    lemma_prim_sound();
    let a0 = spec_dec_pubkey(s)->Some_0;
    let a1 = spec_dec_u64(a0.1)->Some_0;
    let a2 = spec_dec_update_type(a1.1)->Some_0;
    lemma_update_type_sound(a1.1);
    let a3 = spec_dec_order_details(a2.1)->Some_0;
    lemma_order_details_sound(a2.1);
    let a4 = spec_dec_fill_log_details(a3.1)->Some_0;
    lemma_fill_log_details_sound(a3.1);
    let a5 = spec_dec_u64(a4.1)->Some_0;
    assert(s =~= spec_enc_pubkey(a0.0) + a0.1);
    lemma_app_assoc(spec_enc_pubkey(a0.0), spec_enc_u64(a1.0), a1.1);
    assert(s =~= (spec_enc_pubkey(a0.0) + spec_enc_u64(a1.0)) + a1.1);
    lemma_app_assoc((spec_enc_pubkey(a0.0) + spec_enc_u64(a1.0)), spec_enc_update_type(a2.0), a2.1);
    assert(s =~= ((spec_enc_pubkey(a0.0) + spec_enc_u64(a1.0)) + spec_enc_update_type(a2.0)) + a2.1);
    lemma_app_assoc(((spec_enc_pubkey(a0.0) + spec_enc_u64(a1.0)) + spec_enc_update_type(a2.0)), spec_enc_order_details(a3.0), a3.1);
    assert(s =~= (((spec_enc_pubkey(a0.0) + spec_enc_u64(a1.0)) + spec_enc_update_type(a2.0)) + spec_enc_order_details(a3.0)) + a3.1);
    lemma_app_assoc((((spec_enc_pubkey(a0.0) + spec_enc_u64(a1.0)) + spec_enc_update_type(a2.0)) + spec_enc_order_details(a3.0)), spec_enc_fill_log_details(a4.0), a4.1);
    assert(s =~= ((((spec_enc_pubkey(a0.0) + spec_enc_u64(a1.0)) + spec_enc_update_type(a2.0)) + spec_enc_order_details(a3.0)) + spec_enc_fill_log_details(a4.0)) + a4.1);
    lemma_app_assoc(((((spec_enc_pubkey(a0.0) + spec_enc_u64(a1.0)) + spec_enc_update_type(a2.0)) + spec_enc_order_details(a3.0)) + spec_enc_fill_log_details(a4.0)), spec_enc_u64(a5.0), a5.1);
    assert(s =~= (((((spec_enc_pubkey(a0.0) + spec_enc_u64(a1.0)) + spec_enc_update_type(a2.0)) + spec_enc_order_details(a3.0)) + spec_enc_fill_log_details(a4.0)) + spec_enc_u64(a5.0)) + a5.1);
    assert(spec_enc_log_entry(spec_dec_log_entry(s)->Some_0.0) == (((((spec_enc_pubkey(a0.0) + spec_enc_u64(a1.0)) + spec_enc_update_type(a2.0)) + spec_enc_order_details(a3.0)) + spec_enc_fill_log_details(a4.0)) + spec_enc_u64(a5.0)));
}

} // verus!
