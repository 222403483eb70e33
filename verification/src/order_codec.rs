//! Canonical byte encoding of the order-lifecycle records.
//!
//! Tagged unions encode as a one-byte discriminant in declaration order
//! followed by the variant's fields; structs encode field by field in
//! declaration order.  Each type carries a specification encoder, a
//! specification decoder inverting it, and executable functions proved
//! against the pair.

use vstd::prelude::*;

use crate::codec::dec_bool;
use crate::codec::dec_i64;
use crate::codec::dec_pubkey;
use crate::codec::dec_u128;
use crate::codec::dec_u16;
use crate::codec::dec_u32;
use crate::codec::dec_u64;
use crate::codec::dec_u8;
use crate::codec::enc_bool;
use crate::codec::enc_i64;
use crate::codec::enc_pubkey;
use crate::codec::enc_u128;
use crate::codec::enc_u16;
use crate::codec::enc_u32;
use crate::codec::enc_u64;
use crate::codec::enc_u8;
use crate::codec::lemma_prim_round_trip;
use crate::codec::lemma_prim_sound;
use crate::codec::spec_dec_bool;
use crate::codec::spec_dec_i64;
use crate::codec::spec_dec_pubkey;
use crate::codec::spec_dec_u128;
use crate::codec::spec_dec_u16;
use crate::codec::spec_dec_u32;
use crate::codec::spec_dec_u64;
use crate::codec::spec_dec_u8;
use crate::codec::spec_enc_bool;
use crate::codec::spec_enc_i64;
use crate::codec::spec_enc_pubkey;
use crate::codec::spec_enc_u128;
use crate::codec::spec_enc_u16;
use crate::codec::spec_enc_u32;
use crate::codec::spec_enc_u64;
use crate::codec::spec_enc_u8;
use crate::keys::Pubkey;
use crate::order::BuilderTag;
use crate::order::EventHistory;
use crate::order::OrderDetails;
use crate::order::OrderMarker;
use crate::order::OrderOriginator;
use crate::order::OrderPrice;
use crate::order::OrderSide;
use crate::order::OrderTombstone;
use crate::order::PegPriceReference;
use crate::order::PriceReference;
use crate::order::TimeInForce;
use crate::order::TriggerCondition;
use crate::order::TriggerEntrySize;

verus! {

/// Convert a byte slice of length `N` into an array.
///
/// Relies on `<[u8]>::copy_from_slice`, which copies a slice of exactly
/// `N` bytes into an array of the same length.
#[verifier::external_body]
pub(crate) fn slice_to_array<const N: usize>(s: &[u8]) -> (r: [u8; N])
    requires
        s@.len() == N,
    ensures
        r@ == s@,
{
    let mut out = [0u8; N];
    out.copy_from_slice(s);
    out
}

/// Decode `N` raw bytes into an array.
pub open spec fn spec_dec_arr<const N: usize>(s: Seq<u8>) -> Option<([u8; N], Seq<u8>)> {
    if s.len() >= N {
        Some(((choose|a: [u8; N]| a@ == s.take(N as int)), s.skip(N as int)))
    } else {
        None
    }
}

/// Raw array bytes decode to exactly the array.
pub proof fn lemma_arr_round_trip<const N: usize>(a: [u8; N], rest: Seq<u8>)
    ensures
        spec_dec_arr::<N>(a@ + rest) == Some((a, rest)),
{
    broadcast use vstd::array::array_len_matches_n;
    broadcast use vstd::array::axiom_array_ext_equal;

    assert((a@ + rest).take(N as int) =~= a@);
    assert((a@ + rest).skip(N as int) =~= rest);
    let w = choose|x: [u8; N]| x@ == (a@ + rest).take(N as int);
    assert(a@ == (a@ + rest).take(N as int));
    assert(w@ == a@);
    assert(w@ =~= a@);
    assert(w == a);
}

/// Append a fixed-size byte array.
pub fn enc_bytes_n<const N: usize>(out: &mut Vec<u8>, a: &[u8; N])
    ensures
        final(out)@ == old(out)@ + a@,
{
    let mut v = vstd::slice::slice_to_vec(a.as_slice());
    out.append(&mut v);
}

/// Read `N` raw bytes at `pos` into an array.
pub fn dec_bytes_n<const N: usize>(buf: &Vec<u8>, pos: usize) -> (r: Option<([u8; N], usize)>)
    requires
        pos <= buf@.len(),
    ensures
        match r {
            Some(v) => pos + N <= buf@.len() && v.1 == pos + N && spec_dec_arr::<N>(
                buf@.skip(pos as int),
            ) == Some((v.0, buf@.skip(v.1 as int))),
            None => pos + N > buf@.len() && spec_dec_arr::<N>(buf@.skip(pos as int)) is None,
        },
{
    let n = buf.len();
    if pos < n && n - pos >= N || N == 0 {
        let s = vstd::slice::slice_subrange(buf.as_slice(), pos, pos + N);
        let a: [u8; N] = slice_to_array(s);
        proof {
            broadcast use vstd::array::axiom_array_ext_equal;

            assert(buf@.skip(pos as int).take(N as int) =~= buf@.subrange(
                pos as int,
                pos as int + N,
            ));
            assert(buf@.skip(pos as int).skip(N as int) =~= buf@.skip(pos as int + N));
            let w = choose|x: [u8; N]| x@ == buf@.skip(pos as int).take(N as int);
            assert(a@ == buf@.skip(pos as int).take(N as int));
            assert(w@ =~= a@);
            assert(w == a);
        }
        Some((a, pos + N))
    } else {
        proof {
            assert(buf@.skip(pos as int).len() < N);
        }
        None
    }
}

/// Sequence concatenation is associative.
pub proof fn lemma_app_assoc(a: Seq<u8>, b: Seq<u8>, c: Seq<u8>)
    ensures
        (a + b) + c == a + (b + c),
{
    assert((a + b) + c =~= a + (b + c));
}

/// Every byte sequence of length `N` is the view of some array.
proof fn lemma_arr_of_seq<const N: usize>(s: Seq<u8>, k: int)
    requires
        s.len() == N,
        0 <= k <= N,
    ensures
        exists|a: [u8; N]|
            a@.len() == N && forall|j: int| 0 <= j < k ==> (#[trigger] a@[j]) == s[j],
    decreases k,
{
    broadcast use vstd::array::axiom_spec_array_fill_for_copy_type;
    broadcast use vstd::array::axiom_spec_array_update;
    broadcast use vstd::array::array_len_matches_n;

    if k == 0 {
        let z = vstd::array::spec_array_fill_for_copy_type::<u8, N>(0u8);
        assert(z@.len() == N && forall|j: int| 0 <= j < 0 ==> (#[trigger] z@[j]) == s[j]);
    } else {
        lemma_arr_of_seq::<N>(s, k - 1);
        let a0 = choose|a: [u8; N]|
            a@.len() == N && forall|j: int| 0 <= j < k - 1 ==> (#[trigger] a@[j]) == s[j];
        let a1 = vstd::array::spec_array_update(a0, k - 1, s[k - 1]);
        assert(a1@ == a0@.update(k - 1, s[k - 1]));
        assert(a1@.len() == N && forall|j: int| 0 <= j < k ==> (#[trigger] a1@[j]) == s[j]);
    }
}

/// A successful raw-array decode consumed exactly the array's bytes.
pub proof fn lemma_arr_sound<const N: usize>(s: Seq<u8>)
    requires
        spec_dec_arr::<N>(s) is Some,
    ensures
        ({
            let v = spec_dec_arr::<N>(s)->Some_0;
            s == v.0@ + v.1
        }),
{
    broadcast use vstd::array::axiom_array_ext_equal;
    broadcast use vstd::array::array_len_matches_n;

    lemma_arr_of_seq::<N>(s.take(N as int), N as int);
    let b = choose|a: [u8; N]|
        a@.len() == N && forall|j: int| 0 <= j < N ==> (#[trigger] a@[j]) == s.take(N as int)[j];
    assert(b@ =~= s.take(N as int));
    let w = choose|a: [u8; N]| a@ == s.take(N as int);
    assert(w@ == s.take(N as int));
    assert(s =~= s.take(N as int) + s.skip(N as int));
}

/// The canonical bytes of an `OrderSide`.
pub open spec fn spec_enc_order_side(x: OrderSide) -> Seq<u8> {
    match x {
        OrderSide::Bid => spec_enc_u8(0),
        OrderSide::Ask => spec_enc_u8(1),
    }
}

/// Decode an `OrderSide`.
pub open spec fn spec_dec_order_side(s: Seq<u8>) -> Option<(OrderSide, Seq<u8>)> {
    match spec_dec_u8(s) {
        Some(v) => if v.0 == 0 {
            Some((OrderSide::Bid, v.1))
        } else if v.0 == 1 {
            Some((OrderSide::Ask, v.1))
        } else {
            None
        },
        None => None,
    }
}

/// Decoding inverts encoding for `OrderSide`.
pub proof fn lemma_order_side_round_trip(x: OrderSide, rest: Seq<u8>)
    ensures
        spec_dec_order_side(spec_enc_order_side(x) + rest) == Some((x, rest)),
{
    lemma_prim_round_trip();
}

/// Append an `OrderSide`.
pub fn enc_order_side(out: &mut Vec<u8>, x: &OrderSide)
    ensures
        final(out)@ == old(out)@ + spec_enc_order_side(*x),
{
    match x {
        OrderSide::Bid => enc_u8(out, 0),
        OrderSide::Ask => enc_u8(out, 1),
    }
}

/// Read an `OrderSide` at `pos`.
pub fn dec_order_side(buf: &Vec<u8>, pos: usize) -> (r: Option<(OrderSide, usize)>)
    requires
        pos <= buf@.len(),
    ensures
        match r {
            Some(v) => pos <= v.1 <= buf@.len() && spec_dec_order_side(buf@.skip(pos as int))
                == Some((v.0, buf@.skip(v.1 as int))),
            None => spec_dec_order_side(buf@.skip(pos as int)) is None,
        },
{
    match dec_u8(buf, pos) {
        Some(v) => {
            if v.0 == 0 {
                Some((OrderSide::Bid, v.1))
            } else if v.0 == 1 {
                Some((OrderSide::Ask, v.1))
            } else {
                None
            }
        },
        None => None,
    }
}

/// The canonical bytes of an `OrderTombstone`.
pub open spec fn spec_enc_tombstone(x: OrderTombstone) -> Seq<u8> {
    match x {
        OrderTombstone::Empty() => spec_enc_u8(0),
        OrderTombstone::PreTrigger() => spec_enc_u8(1),
        OrderTombstone::Open() => spec_enc_u8(2),
        OrderTombstone::Filled() => spec_enc_u8(3),
        OrderTombstone::UserCancel() => spec_enc_u8(4),
        OrderTombstone::TriggerCancelCond1() => spec_enc_u8(5),
        OrderTombstone::TriggerCancelCond2() => spec_enc_u8(6),
        OrderTombstone::TriggerCancelCond3() => spec_enc_u8(7),
        OrderTombstone::LiquidatorMargin() => spec_enc_u8(8),
        OrderTombstone::AutoDeleverage() => spec_enc_u8(9),
        OrderTombstone::SystemHalt() => spec_enc_u8(10),
        OrderTombstone::Breaker() => spec_enc_u8(11),
        OrderTombstone::PositionLimits() => spec_enc_u8(12),
        OrderTombstone::MarketClosed() => spec_enc_u8(13),
        OrderTombstone::SelfTrade() => spec_enc_u8(14),
        OrderTombstone::TickRejected() => spec_enc_u8(15),
        OrderTombstone::PriceBandRejected() => spec_enc_u8(16),
        OrderTombstone::MinTradeRejected() => spec_enc_u8(17),
        OrderTombstone::OpenInterestCap() => spec_enc_u8(18),
        OrderTombstone::MaxPositionRejected() => spec_enc_u8(19),
        OrderTombstone::MaxOrderSizeRejected() => spec_enc_u8(20),
        OrderTombstone::CancelOnEntrySizing() => spec_enc_u8(21),
        OrderTombstone::InvalidPrice() => spec_enc_u8(22),
        OrderTombstone::InvalidQty() => spec_enc_u8(23),
        OrderTombstone::InvalidCond() => spec_enc_u8(24),
        OrderTombstone::ForceExpire() => spec_enc_u8(25),
        OrderTombstone::Admin() => spec_enc_u8(26),
        OrderTombstone::Error() => spec_enc_u8(27),
    }
}

/// Decode an `OrderTombstone`.
pub open spec fn spec_dec_tombstone(s: Seq<u8>) -> Option<(OrderTombstone, Seq<u8>)> {
    match spec_dec_u8(s) {
        Some(t) =>
        if t.0 == 0 {
            Some((OrderTombstone::Empty(), t.1))
        }
        else if t.0 == 1 {
            Some((OrderTombstone::PreTrigger(), t.1))
        }
        else if t.0 == 2 {
            Some((OrderTombstone::Open(), t.1))
        }
        else if t.0 == 3 {
            Some((OrderTombstone::Filled(), t.1))
        }
        else if t.0 == 4 {
            Some((OrderTombstone::UserCancel(), t.1))
        }
        else if t.0 == 5 {
            Some((OrderTombstone::TriggerCancelCond1(), t.1))
        }
        else if t.0 == 6 {
            Some((OrderTombstone::TriggerCancelCond2(), t.1))
        }
        else if t.0 == 7 {
            Some((OrderTombstone::TriggerCancelCond3(), t.1))
        }
        else if t.0 == 8 {
            Some((OrderTombstone::LiquidatorMargin(), t.1))
        }
        else if t.0 == 9 {
            Some((OrderTombstone::AutoDeleverage(), t.1))
        }
        else if t.0 == 10 {
            Some((OrderTombstone::SystemHalt(), t.1))
        }
        else if t.0 == 11 {
            Some((OrderTombstone::Breaker(), t.1))
        }
        else if t.0 == 12 {
            Some((OrderTombstone::PositionLimits(), t.1))
        }
        else if t.0 == 13 {
            Some((OrderTombstone::MarketClosed(), t.1))
        }
        else if t.0 == 14 {
            Some((OrderTombstone::SelfTrade(), t.1))
        }
        else if t.0 == 15 {
            Some((OrderTombstone::TickRejected(), t.1))
        }
        else if t.0 == 16 {
            Some((OrderTombstone::PriceBandRejected(), t.1))
        }
        else if t.0 == 17 {
            Some((OrderTombstone::MinTradeRejected(), t.1))
        }
        else if t.0 == 18 {
            Some((OrderTombstone::OpenInterestCap(), t.1))
        }
        else if t.0 == 19 {
            Some((OrderTombstone::MaxPositionRejected(), t.1))
        }
        else if t.0 == 20 {
            Some((OrderTombstone::MaxOrderSizeRejected(), t.1))
        }
        else if t.0 == 21 {
            Some((OrderTombstone::CancelOnEntrySizing(), t.1))
        }
        else if t.0 == 22 {
            Some((OrderTombstone::InvalidPrice(), t.1))
        }
        else if t.0 == 23 {
            Some((OrderTombstone::InvalidQty(), t.1))
        }
        else if t.0 == 24 {
            Some((OrderTombstone::InvalidCond(), t.1))
        }
        else if t.0 == 25 {
            Some((OrderTombstone::ForceExpire(), t.1))
        }
        else if t.0 == 26 {
            Some((OrderTombstone::Admin(), t.1))
        }
        else if t.0 == 27 {
            Some((OrderTombstone::Error(), t.1))
        }
        else {
            None
        },
        None => None,
    }
}

/// Decoding inverts encoding for an `OrderTombstone`.
pub proof fn lemma_tombstone_round_trip(x: OrderTombstone, rest: Seq<u8>)
    ensures
        spec_dec_tombstone(spec_enc_tombstone(x) + rest) == Some((x, rest)),
{
    lemma_prim_round_trip();
    match x {
        OrderTombstone::Empty() => {
            assert(spec_enc_tombstone(x) + rest =~= spec_enc_u8(0) + rest);
        },
        OrderTombstone::PreTrigger() => {
            assert(spec_enc_tombstone(x) + rest =~= spec_enc_u8(1) + rest);
        },
        OrderTombstone::Open() => {
            assert(spec_enc_tombstone(x) + rest =~= spec_enc_u8(2) + rest);
        },
        OrderTombstone::Filled() => {
            assert(spec_enc_tombstone(x) + rest =~= spec_enc_u8(3) + rest);
        },
        OrderTombstone::UserCancel() => {
            assert(spec_enc_tombstone(x) + rest =~= spec_enc_u8(4) + rest);
        },
        OrderTombstone::TriggerCancelCond1() => {
            assert(spec_enc_tombstone(x) + rest =~= spec_enc_u8(5) + rest);
        },
        OrderTombstone::TriggerCancelCond2() => {
            assert(spec_enc_tombstone(x) + rest =~= spec_enc_u8(6) + rest);
        },
        OrderTombstone::TriggerCancelCond3() => {
            assert(spec_enc_tombstone(x) + rest =~= spec_enc_u8(7) + rest);
        },
        OrderTombstone::LiquidatorMargin() => {
            assert(spec_enc_tombstone(x) + rest =~= spec_enc_u8(8) + rest);
        },
        OrderTombstone::AutoDeleverage() => {
            assert(spec_enc_tombstone(x) + rest =~= spec_enc_u8(9) + rest);
        },
        OrderTombstone::SystemHalt() => {
            assert(spec_enc_tombstone(x) + rest =~= spec_enc_u8(10) + rest);
        },
        OrderTombstone::Breaker() => {
            assert(spec_enc_tombstone(x) + rest =~= spec_enc_u8(11) + rest);
        },
        OrderTombstone::PositionLimits() => {
            assert(spec_enc_tombstone(x) + rest =~= spec_enc_u8(12) + rest);
        },
        OrderTombstone::MarketClosed() => {
            assert(spec_enc_tombstone(x) + rest =~= spec_enc_u8(13) + rest);
        },
        OrderTombstone::SelfTrade() => {
            assert(spec_enc_tombstone(x) + rest =~= spec_enc_u8(14) + rest);
        },
        OrderTombstone::TickRejected() => {
            assert(spec_enc_tombstone(x) + rest =~= spec_enc_u8(15) + rest);
        },
        OrderTombstone::PriceBandRejected() => {
            assert(spec_enc_tombstone(x) + rest =~= spec_enc_u8(16) + rest);
        },
        OrderTombstone::MinTradeRejected() => {
            assert(spec_enc_tombstone(x) + rest =~= spec_enc_u8(17) + rest);
        },
        OrderTombstone::OpenInterestCap() => {
            assert(spec_enc_tombstone(x) + rest =~= spec_enc_u8(18) + rest);
        },
        OrderTombstone::MaxPositionRejected() => {
            assert(spec_enc_tombstone(x) + rest =~= spec_enc_u8(19) + rest);
        },
        OrderTombstone::MaxOrderSizeRejected() => {
            assert(spec_enc_tombstone(x) + rest =~= spec_enc_u8(20) + rest);
        },
        OrderTombstone::CancelOnEntrySizing() => {
            assert(spec_enc_tombstone(x) + rest =~= spec_enc_u8(21) + rest);
        },
        OrderTombstone::InvalidPrice() => {
            assert(spec_enc_tombstone(x) + rest =~= spec_enc_u8(22) + rest);
        },
        OrderTombstone::InvalidQty() => {
            assert(spec_enc_tombstone(x) + rest =~= spec_enc_u8(23) + rest);
        },
        OrderTombstone::InvalidCond() => {
            assert(spec_enc_tombstone(x) + rest =~= spec_enc_u8(24) + rest);
        },
        OrderTombstone::ForceExpire() => {
            assert(spec_enc_tombstone(x) + rest =~= spec_enc_u8(25) + rest);
        },
        OrderTombstone::Admin() => {
            assert(spec_enc_tombstone(x) + rest =~= spec_enc_u8(26) + rest);
        },
        OrderTombstone::Error() => {
            assert(spec_enc_tombstone(x) + rest =~= spec_enc_u8(27) + rest);
        },
    }
}

/// Append an `OrderTombstone`.
pub fn enc_tombstone(out: &mut Vec<u8>, x: &OrderTombstone)
    ensures
        final(out)@ == old(out)@ + spec_enc_tombstone(*x),
{
    match x {
        OrderTombstone::Empty() => {
            enc_u8(out, 0);
        },
        OrderTombstone::PreTrigger() => {
            enc_u8(out, 1);
        },
        OrderTombstone::Open() => {
            enc_u8(out, 2);
        },
        OrderTombstone::Filled() => {
            enc_u8(out, 3);
        },
        OrderTombstone::UserCancel() => {
            enc_u8(out, 4);
        },
        OrderTombstone::TriggerCancelCond1() => {
            enc_u8(out, 5);
        },
        OrderTombstone::TriggerCancelCond2() => {
            enc_u8(out, 6);
        },
        OrderTombstone::TriggerCancelCond3() => {
            enc_u8(out, 7);
        },
        OrderTombstone::LiquidatorMargin() => {
            enc_u8(out, 8);
        },
        OrderTombstone::AutoDeleverage() => {
            enc_u8(out, 9);
        },
        OrderTombstone::SystemHalt() => {
            enc_u8(out, 10);
        },
        OrderTombstone::Breaker() => {
            enc_u8(out, 11);
        },
        OrderTombstone::PositionLimits() => {
            enc_u8(out, 12);
        },
        OrderTombstone::MarketClosed() => {
            enc_u8(out, 13);
        },
        OrderTombstone::SelfTrade() => {
            enc_u8(out, 14);
        },
        OrderTombstone::TickRejected() => {
            enc_u8(out, 15);
        },
        OrderTombstone::PriceBandRejected() => {
            enc_u8(out, 16);
        },
        OrderTombstone::MinTradeRejected() => {
            enc_u8(out, 17);
        },
        OrderTombstone::OpenInterestCap() => {
            enc_u8(out, 18);
        },
        OrderTombstone::MaxPositionRejected() => {
            enc_u8(out, 19);
        },
        OrderTombstone::MaxOrderSizeRejected() => {
            enc_u8(out, 20);
        },
        OrderTombstone::CancelOnEntrySizing() => {
            enc_u8(out, 21);
        },
        OrderTombstone::InvalidPrice() => {
            enc_u8(out, 22);
        },
        OrderTombstone::InvalidQty() => {
            enc_u8(out, 23);
        },
        OrderTombstone::InvalidCond() => {
            enc_u8(out, 24);
        },
        OrderTombstone::ForceExpire() => {
            enc_u8(out, 25);
        },
        OrderTombstone::Admin() => {
            enc_u8(out, 26);
        },
        OrderTombstone::Error() => {
            enc_u8(out, 27);
        },
    }
    proof {
        assert(final(out)@ =~= old(out)@ + spec_enc_tombstone(*x));
    }
}

/// Read an `OrderTombstone` at `pos`.
pub fn dec_tombstone(buf: &Vec<u8>, pos: usize) -> (r: Option<(OrderTombstone, usize)>)
    requires
        pos <= buf@.len(),
    ensures
        match r {
            Some(v) => pos <= v.1 <= buf@.len() && spec_dec_tombstone(buf@.skip(pos as int)) == Some(
                (v.0, buf@.skip(v.1 as int)),
            ),
            None => spec_dec_tombstone(buf@.skip(pos as int)) is None,
        },
{
    let t = match dec_u8(buf, pos) {
        Some(v) => v,
        None => { return None },
    };
        if t.0 == 0 {
            Some((OrderTombstone::Empty(), t.1))
        }
        else if t.0 == 1 {
            Some((OrderTombstone::PreTrigger(), t.1))
        }
        else if t.0 == 2 {
            Some((OrderTombstone::Open(), t.1))
        }
        else if t.0 == 3 {
            Some((OrderTombstone::Filled(), t.1))
        }
        else if t.0 == 4 {
            Some((OrderTombstone::UserCancel(), t.1))
        }
        else if t.0 == 5 {
            Some((OrderTombstone::TriggerCancelCond1(), t.1))
        }
        else if t.0 == 6 {
            Some((OrderTombstone::TriggerCancelCond2(), t.1))
        }
        else if t.0 == 7 {
            Some((OrderTombstone::TriggerCancelCond3(), t.1))
        }
        else if t.0 == 8 {
            Some((OrderTombstone::LiquidatorMargin(), t.1))
        }
        else if t.0 == 9 {
            Some((OrderTombstone::AutoDeleverage(), t.1))
        }
        else if t.0 == 10 {
            Some((OrderTombstone::SystemHalt(), t.1))
        }
        else if t.0 == 11 {
            Some((OrderTombstone::Breaker(), t.1))
        }
        else if t.0 == 12 {
            Some((OrderTombstone::PositionLimits(), t.1))
        }
        else if t.0 == 13 {
            Some((OrderTombstone::MarketClosed(), t.1))
        }
        else if t.0 == 14 {
            Some((OrderTombstone::SelfTrade(), t.1))
        }
        else if t.0 == 15 {
            Some((OrderTombstone::TickRejected(), t.1))
        }
        else if t.0 == 16 {
            Some((OrderTombstone::PriceBandRejected(), t.1))
        }
        else if t.0 == 17 {
            Some((OrderTombstone::MinTradeRejected(), t.1))
        }
        else if t.0 == 18 {
            Some((OrderTombstone::OpenInterestCap(), t.1))
        }
        else if t.0 == 19 {
            Some((OrderTombstone::MaxPositionRejected(), t.1))
        }
        else if t.0 == 20 {
            Some((OrderTombstone::MaxOrderSizeRejected(), t.1))
        }
        else if t.0 == 21 {
            Some((OrderTombstone::CancelOnEntrySizing(), t.1))
        }
        else if t.0 == 22 {
            Some((OrderTombstone::InvalidPrice(), t.1))
        }
        else if t.0 == 23 {
            Some((OrderTombstone::InvalidQty(), t.1))
        }
        else if t.0 == 24 {
            Some((OrderTombstone::InvalidCond(), t.1))
        }
        else if t.0 == 25 {
            Some((OrderTombstone::ForceExpire(), t.1))
        }
        else if t.0 == 26 {
            Some((OrderTombstone::Admin(), t.1))
        }
        else if t.0 == 27 {
            Some((OrderTombstone::Error(), t.1))
        }
    else {
        None
    }
}

/// The canonical bytes of a `PegPriceReference`.
pub open spec fn spec_enc_peg_price_reference(x: PegPriceReference) -> Seq<u8> {
    match x {
        PegPriceReference::OraclePrice() => spec_enc_u8(0),
    }
}

/// Decode a `PegPriceReference`.
pub open spec fn spec_dec_peg_price_reference(s: Seq<u8>) -> Option<(PegPriceReference, Seq<u8>)> {
    match spec_dec_u8(s) {
        Some(t) =>
        if t.0 == 0 {
            Some((PegPriceReference::OraclePrice(), t.1))
        }
        else {
            None
        },
        None => None,
    }
}

/// Decoding inverts encoding for a `PegPriceReference`.
pub proof fn lemma_peg_price_reference_round_trip(x: PegPriceReference, rest: Seq<u8>)
    ensures
        spec_dec_peg_price_reference(spec_enc_peg_price_reference(x) + rest) == Some((x, rest)),
{
    lemma_prim_round_trip();
    match x {
        PegPriceReference::OraclePrice() => {
            assert(spec_enc_peg_price_reference(x) + rest =~= spec_enc_u8(0) + rest);
        },
    }
}

/// Append a `PegPriceReference`.
pub fn enc_peg_price_reference(out: &mut Vec<u8>, x: &PegPriceReference)
    ensures
        final(out)@ == old(out)@ + spec_enc_peg_price_reference(*x),
{
    match x {
        PegPriceReference::OraclePrice() => {
            enc_u8(out, 0);
        },
    }
    proof {
        assert(final(out)@ =~= old(out)@ + spec_enc_peg_price_reference(*x));
    }
}

/// Read a `PegPriceReference` at `pos`.
pub fn dec_peg_price_reference(buf: &Vec<u8>, pos: usize) -> (r: Option<(PegPriceReference, usize)>)
    requires
        pos <= buf@.len(),
    ensures
        match r {
            Some(v) => pos <= v.1 <= buf@.len() && spec_dec_peg_price_reference(buf@.skip(pos as int)) == Some(
                (v.0, buf@.skip(v.1 as int)),
            ),
            None => spec_dec_peg_price_reference(buf@.skip(pos as int)) is None,
        },
{
    let t = match dec_u8(buf, pos) {
        Some(v) => v,
        None => { return None },
    };
        if t.0 == 0 {
            Some((PegPriceReference::OraclePrice(), t.1))
        }
    else {
        None
    }
}

/// The canonical bytes of a `PriceReference`.
pub open spec fn spec_enc_price_reference(x: PriceReference) -> Seq<u8> {
    match x {
        PriceReference::MarkPrice() => spec_enc_u8(0),
        PriceReference::OraclePrice() => spec_enc_u8(1),
        PriceReference::SpotPrice() => spec_enc_u8(2),
        PriceReference::BidPrice() => spec_enc_u8(3),
        PriceReference::AskPrice() => spec_enc_u8(4),
        PriceReference::MidPrice() => spec_enc_u8(5),
        PriceReference::LastTradePrice() => spec_enc_u8(6),
    }
}

/// Decode a `PriceReference`.
pub open spec fn spec_dec_price_reference(s: Seq<u8>) -> Option<(PriceReference, Seq<u8>)> {
    match spec_dec_u8(s) {
        Some(t) =>
        if t.0 == 0 {
            Some((PriceReference::MarkPrice(), t.1))
        }
        else if t.0 == 1 {
            Some((PriceReference::OraclePrice(), t.1))
        }
        else if t.0 == 2 {
            Some((PriceReference::SpotPrice(), t.1))
        }
        else if t.0 == 3 {
            Some((PriceReference::BidPrice(), t.1))
        }
        else if t.0 == 4 {
            Some((PriceReference::AskPrice(), t.1))
        }
        else if t.0 == 5 {
            Some((PriceReference::MidPrice(), t.1))
        }
        else if t.0 == 6 {
            Some((PriceReference::LastTradePrice(), t.1))
        }
        else {
            None
        },
        None => None,
    }
}

/// Decoding inverts encoding for a `PriceReference`.
pub proof fn lemma_price_reference_round_trip(x: PriceReference, rest: Seq<u8>)
    ensures
        spec_dec_price_reference(spec_enc_price_reference(x) + rest) == Some((x, rest)),
{
    lemma_prim_round_trip();
    match x {
        PriceReference::MarkPrice() => {
            assert(spec_enc_price_reference(x) + rest =~= spec_enc_u8(0) + rest);
        },
        PriceReference::OraclePrice() => {
            assert(spec_enc_price_reference(x) + rest =~= spec_enc_u8(1) + rest);
        },
        PriceReference::SpotPrice() => {
            assert(spec_enc_price_reference(x) + rest =~= spec_enc_u8(2) + rest);
        },
        PriceReference::BidPrice() => {
            assert(spec_enc_price_reference(x) + rest =~= spec_enc_u8(3) + rest);
        },
        PriceReference::AskPrice() => {
            assert(spec_enc_price_reference(x) + rest =~= spec_enc_u8(4) + rest);
        },
        PriceReference::MidPrice() => {
            assert(spec_enc_price_reference(x) + rest =~= spec_enc_u8(5) + rest);
        },
        PriceReference::LastTradePrice() => {
            assert(spec_enc_price_reference(x) + rest =~= spec_enc_u8(6) + rest);
        },
    }
}

/// Append a `PriceReference`.
pub fn enc_price_reference(out: &mut Vec<u8>, x: &PriceReference)
    ensures
        final(out)@ == old(out)@ + spec_enc_price_reference(*x),
{
    match x {
        PriceReference::MarkPrice() => {
            enc_u8(out, 0);
        },
        PriceReference::OraclePrice() => {
            enc_u8(out, 1);
        },
        PriceReference::SpotPrice() => {
            enc_u8(out, 2);
        },
        PriceReference::BidPrice() => {
            enc_u8(out, 3);
        },
        PriceReference::AskPrice() => {
            enc_u8(out, 4);
        },
        PriceReference::MidPrice() => {
            enc_u8(out, 5);
        },
        PriceReference::LastTradePrice() => {
            enc_u8(out, 6);
        },
    }
    proof {
        assert(final(out)@ =~= old(out)@ + spec_enc_price_reference(*x));
    }
}

/// Read a `PriceReference` at `pos`.
pub fn dec_price_reference(buf: &Vec<u8>, pos: usize) -> (r: Option<(PriceReference, usize)>)
    requires
        pos <= buf@.len(),
    ensures
        match r {
            Some(v) => pos <= v.1 <= buf@.len() && spec_dec_price_reference(buf@.skip(pos as int)) == Some(
                (v.0, buf@.skip(v.1 as int)),
            ),
            None => spec_dec_price_reference(buf@.skip(pos as int)) is None,
        },
{
    let t = match dec_u8(buf, pos) {
        Some(v) => v,
        None => { return None },
    };
        if t.0 == 0 {
            Some((PriceReference::MarkPrice(), t.1))
        }
        else if t.0 == 1 {
            Some((PriceReference::OraclePrice(), t.1))
        }
        else if t.0 == 2 {
            Some((PriceReference::SpotPrice(), t.1))
        }
        else if t.0 == 3 {
            Some((PriceReference::BidPrice(), t.1))
        }
        else if t.0 == 4 {
            Some((PriceReference::AskPrice(), t.1))
        }
        else if t.0 == 5 {
            Some((PriceReference::MidPrice(), t.1))
        }
        else if t.0 == 6 {
            Some((PriceReference::LastTradePrice(), t.1))
        }
    else {
        None
    }
}

/// The canonical bytes of an `OrderPrice`.
pub open spec fn spec_enc_order_price(x: OrderPrice) -> Seq<u8> {
    match x {
        OrderPrice::Market() => spec_enc_u8(0),
        OrderPrice::Limit(a0) => spec_enc_u8(1) + spec_enc_u64(a0),
        OrderPrice::PeggedOffset(a0, a1) => spec_enc_u8(2) + spec_enc_i64(a0) + spec_enc_peg_price_reference(a1),
    }
}

/// Decode an `OrderPrice`.
pub open spec fn spec_dec_order_price(s: Seq<u8>) -> Option<(OrderPrice, Seq<u8>)> {
    match spec_dec_u8(s) {
        Some(t) =>
        if t.0 == 0 {
            Some((OrderPrice::Market(), t.1))
        }
        else if t.0 == 1 {
            match spec_dec_u64(t.1) {
            Some(a0) => Some((OrderPrice::Limit(a0.0), a0.1)),
            None => None,
        }
        }
        else if t.0 == 2 {
            match spec_dec_i64(t.1) {
            Some(a0) => match spec_dec_peg_price_reference(a0.1) {
            Some(a1) => Some((OrderPrice::PeggedOffset(a0.0, a1.0), a1.1)),
            None => None,
        },
            None => None,
        }
        }
        else {
            None
        },
        None => None,
    }
}

/// Decoding inverts encoding for an `OrderPrice`.
pub proof fn lemma_order_price_round_trip(x: OrderPrice, rest: Seq<u8>)
    ensures
        spec_dec_order_price(spec_enc_order_price(x) + rest) == Some((x, rest)),
{
    lemma_prim_round_trip();
    match x {
        OrderPrice::Market() => {
            assert(spec_enc_order_price(x) + rest =~= spec_enc_u8(0) + rest);
        },
        OrderPrice::Limit(a0) => {
            let t0 = spec_enc_u64(a0) + rest;
            assert(spec_enc_order_price(x) + rest =~= spec_enc_u8(1) + t0);
        },
        OrderPrice::PeggedOffset(a0, a1) => {
            let t1 = spec_enc_peg_price_reference(a1) + rest;
            let t0 = spec_enc_i64(a0) + t1;
            assert(spec_enc_order_price(x) + rest =~= spec_enc_u8(2) + t0);
            lemma_peg_price_reference_round_trip(a1, rest);
        },
    }
}

/// Append an `OrderPrice`.
pub fn enc_order_price(out: &mut Vec<u8>, x: &OrderPrice)
    ensures
        final(out)@ == old(out)@ + spec_enc_order_price(*x),
{
    match x {
        OrderPrice::Market() => {
            enc_u8(out, 0);
        },
        OrderPrice::Limit(a0) => {
            enc_u8(out, 1);
            enc_u64(out, *a0);
        },
        OrderPrice::PeggedOffset(a0, a1) => {
            enc_u8(out, 2);
            enc_i64(out, *a0);
            enc_peg_price_reference(out, a1);
        },
    }
    proof {
        assert(final(out)@ =~= old(out)@ + spec_enc_order_price(*x));
    }
}

/// Read an `OrderPrice` at `pos`.
pub fn dec_order_price(buf: &Vec<u8>, pos: usize) -> (r: Option<(OrderPrice, usize)>)
    requires
        pos <= buf@.len(),
    ensures
        match r {
            Some(v) => pos <= v.1 <= buf@.len() && spec_dec_order_price(buf@.skip(pos as int)) == Some(
                (v.0, buf@.skip(v.1 as int)),
            ),
            None => spec_dec_order_price(buf@.skip(pos as int)) is None,
        },
{
    let t = match dec_u8(buf, pos) {
        Some(v) => v,
        None => { return None },
    };
        if t.0 == 0 {
            Some((OrderPrice::Market(), t.1))
        }
        else if t.0 == 1 {
            let a0 = match dec_u64(buf, t.1) {
                Some(v) => v,
                None => { return None },
            };
            Some((OrderPrice::Limit(a0.0), a0.1))
        }
        else if t.0 == 2 {
            let a0 = match dec_i64(buf, t.1) {
                Some(v) => v,
                None => { return None },
            };
            let a1 = match dec_peg_price_reference(buf, a0.1) {
                Some(v) => v,
                None => { return None },
            };
            Some((OrderPrice::PeggedOffset(a0.0, a1.0), a1.1))
        }
    else {
        None
    }
}

/// The canonical bytes of an `OrderOriginator`.
pub open spec fn spec_enc_originator(x: OrderOriginator) -> Seq<u8> {
    match x {
        OrderOriginator::User() => spec_enc_u8(0),
        OrderOriginator::Keeper() => spec_enc_u8(1),
        OrderOriginator::OffChainTrigger() => spec_enc_u8(2),
        OrderOriginator::Twap() => spec_enc_u8(3),
        OrderOriginator::Liquidation() => spec_enc_u8(4),
        OrderOriginator::System() => spec_enc_u8(5),
        OrderOriginator::Permit() => spec_enc_u8(6),
        OrderOriginator::VariantPlaceholder(a0) => spec_enc_u8(7) + spec_enc_u128(a0),
    }
}

/// Decode an `OrderOriginator`.
pub open spec fn spec_dec_originator(s: Seq<u8>) -> Option<(OrderOriginator, Seq<u8>)> {
    match spec_dec_u8(s) {
        Some(t) =>
        if t.0 == 0 {
            Some((OrderOriginator::User(), t.1))
        }
        else if t.0 == 1 {
            Some((OrderOriginator::Keeper(), t.1))
        }
        else if t.0 == 2 {
            Some((OrderOriginator::OffChainTrigger(), t.1))
        }
        else if t.0 == 3 {
            Some((OrderOriginator::Twap(), t.1))
        }
        else if t.0 == 4 {
            Some((OrderOriginator::Liquidation(), t.1))
        }
        else if t.0 == 5 {
            Some((OrderOriginator::System(), t.1))
        }
        else if t.0 == 6 {
            Some((OrderOriginator::Permit(), t.1))
        }
        else if t.0 == 7 {
            match spec_dec_u128(t.1) {
            Some(a0) => Some((OrderOriginator::VariantPlaceholder(a0.0), a0.1)),
            None => None,
        }
        }
        else {
            None
        },
        None => None,
    }
}

/// Decoding inverts encoding for an `OrderOriginator`.
pub proof fn lemma_originator_round_trip(x: OrderOriginator, rest: Seq<u8>)
    ensures
        spec_dec_originator(spec_enc_originator(x) + rest) == Some((x, rest)),
{
    lemma_prim_round_trip();
    match x {
        OrderOriginator::User() => {
            assert(spec_enc_originator(x) + rest =~= spec_enc_u8(0) + rest);
        },
        OrderOriginator::Keeper() => {
            assert(spec_enc_originator(x) + rest =~= spec_enc_u8(1) + rest);
        },
        OrderOriginator::OffChainTrigger() => {
            assert(spec_enc_originator(x) + rest =~= spec_enc_u8(2) + rest);
        },
        OrderOriginator::Twap() => {
            assert(spec_enc_originator(x) + rest =~= spec_enc_u8(3) + rest);
        },
        OrderOriginator::Liquidation() => {
            assert(spec_enc_originator(x) + rest =~= spec_enc_u8(4) + rest);
        },
        OrderOriginator::System() => {
            assert(spec_enc_originator(x) + rest =~= spec_enc_u8(5) + rest);
        },
        OrderOriginator::Permit() => {
            assert(spec_enc_originator(x) + rest =~= spec_enc_u8(6) + rest);
        },
        OrderOriginator::VariantPlaceholder(a0) => {
            let t0 = spec_enc_u128(a0) + rest;
            assert(spec_enc_originator(x) + rest =~= spec_enc_u8(7) + t0);
        },
    }
}

/// Append an `OrderOriginator`.
pub fn enc_originator(out: &mut Vec<u8>, x: &OrderOriginator)
    ensures
        final(out)@ == old(out)@ + spec_enc_originator(*x),
{
    match x {
        OrderOriginator::User() => {
            enc_u8(out, 0);
        },
        OrderOriginator::Keeper() => {
            enc_u8(out, 1);
        },
        OrderOriginator::OffChainTrigger() => {
            enc_u8(out, 2);
        },
        OrderOriginator::Twap() => {
            enc_u8(out, 3);
        },
        OrderOriginator::Liquidation() => {
            enc_u8(out, 4);
        },
        OrderOriginator::System() => {
            enc_u8(out, 5);
        },
        OrderOriginator::Permit() => {
            enc_u8(out, 6);
        },
        OrderOriginator::VariantPlaceholder(a0) => {
            enc_u8(out, 7);
            enc_u128(out, *a0);
        },
    }
    proof {
        assert(final(out)@ =~= old(out)@ + spec_enc_originator(*x));
    }
}

/// Read an `OrderOriginator` at `pos`.
pub fn dec_originator(buf: &Vec<u8>, pos: usize) -> (r: Option<(OrderOriginator, usize)>)
    requires
        pos <= buf@.len(),
    ensures
        match r {
            Some(v) => pos <= v.1 <= buf@.len() && spec_dec_originator(buf@.skip(pos as int)) == Some(
                (v.0, buf@.skip(v.1 as int)),
            ),
            None => spec_dec_originator(buf@.skip(pos as int)) is None,
        },
{
    let t = match dec_u8(buf, pos) {
        Some(v) => v,
        None => { return None },
    };
        if t.0 == 0 {
            Some((OrderOriginator::User(), t.1))
        }
        else if t.0 == 1 {
            Some((OrderOriginator::Keeper(), t.1))
        }
        else if t.0 == 2 {
            Some((OrderOriginator::OffChainTrigger(), t.1))
        }
        else if t.0 == 3 {
            Some((OrderOriginator::Twap(), t.1))
        }
        else if t.0 == 4 {
            Some((OrderOriginator::Liquidation(), t.1))
        }
        else if t.0 == 5 {
            Some((OrderOriginator::System(), t.1))
        }
        else if t.0 == 6 {
            Some((OrderOriginator::Permit(), t.1))
        }
        else if t.0 == 7 {
            let a0 = match dec_u128(buf, t.1) {
                Some(v) => v,
                None => { return None },
            };
            Some((OrderOriginator::VariantPlaceholder(a0.0), a0.1))
        }
    else {
        None
    }
}

/// The canonical bytes of a `TriggerCondition`.
pub open spec fn spec_enc_trigger_condition(x: TriggerCondition) -> Seq<u8> {
    match x {
        TriggerCondition::Off() => spec_enc_u8(0),
        TriggerCondition::PriceBelow(a0, a1) => spec_enc_u8(1) + spec_enc_u64(a0) + spec_enc_price_reference(a1),
        TriggerCondition::PriceAbove(a0, a1) => spec_enc_u8(2) + spec_enc_u64(a0) + spec_enc_price_reference(a1),
        TriggerCondition::OrderCancel(a0) => spec_enc_u8(3) + spec_enc_u64(a0),
        TriggerCondition::OrderFill(a0) => spec_enc_u8(4) + spec_enc_u64(a0),
        TriggerCondition::OrderPartialFill(a0, a1) => spec_enc_u8(5) + spec_enc_u64(a0) + spec_enc_u16(a1),
        TriggerCondition::ImmediateOrCancelFail() => spec_enc_u8(6),
        TriggerCondition::FillOrKillFail() => spec_enc_u8(7),
        TriggerCondition::AddLiquidityOnlyFail() => spec_enc_u8(8),
        TriggerCondition::ReduceOnlyFail() => spec_enc_u8(9),
        TriggerCondition::Time(a0) => spec_enc_u8(10) + spec_enc_u64(a0),
        TriggerCondition::VariantPlaceholder(a0) => spec_enc_u8(11) + spec_enc_u128(a0),
    }
}

/// Decode a `TriggerCondition`.
pub open spec fn spec_dec_trigger_condition(s: Seq<u8>) -> Option<(TriggerCondition, Seq<u8>)> {
    match spec_dec_u8(s) {
        Some(t) =>
        if t.0 == 0 {
            Some((TriggerCondition::Off(), t.1))
        }
        else if t.0 == 1 {
            match spec_dec_u64(t.1) {
            Some(a0) => match spec_dec_price_reference(a0.1) {
            Some(a1) => Some((TriggerCondition::PriceBelow(a0.0, a1.0), a1.1)),
            None => None,
        },
            None => None,
        }
        }
        else if t.0 == 2 {
            match spec_dec_u64(t.1) {
            Some(a0) => match spec_dec_price_reference(a0.1) {
            Some(a1) => Some((TriggerCondition::PriceAbove(a0.0, a1.0), a1.1)),
            None => None,
        },
            None => None,
        }
        }
        else if t.0 == 3 {
            match spec_dec_u64(t.1) {
            Some(a0) => Some((TriggerCondition::OrderCancel(a0.0), a0.1)),
            None => None,
        }
        }
        else if t.0 == 4 {
            match spec_dec_u64(t.1) {
            Some(a0) => Some((TriggerCondition::OrderFill(a0.0), a0.1)),
            None => None,
        }
        }
        else if t.0 == 5 {
            match spec_dec_u64(t.1) {
            Some(a0) => match spec_dec_u16(a0.1) {
            Some(a1) => Some((TriggerCondition::OrderPartialFill(a0.0, a1.0), a1.1)),
            None => None,
        },
            None => None,
        }
        }
        else if t.0 == 6 {
            Some((TriggerCondition::ImmediateOrCancelFail(), t.1))
        }
        else if t.0 == 7 {
            Some((TriggerCondition::FillOrKillFail(), t.1))
        }
        else if t.0 == 8 {
            Some((TriggerCondition::AddLiquidityOnlyFail(), t.1))
        }
        else if t.0 == 9 {
            Some((TriggerCondition::ReduceOnlyFail(), t.1))
        }
        else if t.0 == 10 {
            match spec_dec_u64(t.1) {
            Some(a0) => Some((TriggerCondition::Time(a0.0), a0.1)),
            None => None,
        }
        }
        else if t.0 == 11 {
            match spec_dec_u128(t.1) {
            Some(a0) => Some((TriggerCondition::VariantPlaceholder(a0.0), a0.1)),
            None => None,
        }
        }
        else {
            None
        },
        None => None,
    }
}

/// Decoding inverts encoding for a `TriggerCondition`.
pub proof fn lemma_trigger_condition_round_trip(x: TriggerCondition, rest: Seq<u8>)
    ensures
        spec_dec_trigger_condition(spec_enc_trigger_condition(x) + rest) == Some((x, rest)),
{
    lemma_prim_round_trip();
    match x {
        TriggerCondition::Off() => {
            assert(spec_enc_trigger_condition(x) + rest =~= spec_enc_u8(0) + rest);
        },
        TriggerCondition::PriceBelow(a0, a1) => {
            let t1 = spec_enc_price_reference(a1) + rest;
            let t0 = spec_enc_u64(a0) + t1;
            assert(spec_enc_trigger_condition(x) + rest =~= spec_enc_u8(1) + t0);
            lemma_price_reference_round_trip(a1, rest);
        },
        TriggerCondition::PriceAbove(a0, a1) => {
            let t1 = spec_enc_price_reference(a1) + rest;
            let t0 = spec_enc_u64(a0) + t1;
            assert(spec_enc_trigger_condition(x) + rest =~= spec_enc_u8(2) + t0);
            lemma_price_reference_round_trip(a1, rest);
        },
        TriggerCondition::OrderCancel(a0) => {
            let t0 = spec_enc_u64(a0) + rest;
            assert(spec_enc_trigger_condition(x) + rest =~= spec_enc_u8(3) + t0);
        },
        TriggerCondition::OrderFill(a0) => {
            let t0 = spec_enc_u64(a0) + rest;
            assert(spec_enc_trigger_condition(x) + rest =~= spec_enc_u8(4) + t0);
        },
        TriggerCondition::OrderPartialFill(a0, a1) => {
            let t1 = spec_enc_u16(a1) + rest;
            let t0 = spec_enc_u64(a0) + t1;
            assert(spec_enc_trigger_condition(x) + rest =~= spec_enc_u8(5) + t0);
        },
        TriggerCondition::ImmediateOrCancelFail() => {
            assert(spec_enc_trigger_condition(x) + rest =~= spec_enc_u8(6) + rest);
        },
        TriggerCondition::FillOrKillFail() => {
            assert(spec_enc_trigger_condition(x) + rest =~= spec_enc_u8(7) + rest);
        },
        TriggerCondition::AddLiquidityOnlyFail() => {
            assert(spec_enc_trigger_condition(x) + rest =~= spec_enc_u8(8) + rest);
        },
        TriggerCondition::ReduceOnlyFail() => {
            assert(spec_enc_trigger_condition(x) + rest =~= spec_enc_u8(9) + rest);
        },
        TriggerCondition::Time(a0) => {
            let t0 = spec_enc_u64(a0) + rest;
            assert(spec_enc_trigger_condition(x) + rest =~= spec_enc_u8(10) + t0);
        },
        TriggerCondition::VariantPlaceholder(a0) => {
            let t0 = spec_enc_u128(a0) + rest;
            assert(spec_enc_trigger_condition(x) + rest =~= spec_enc_u8(11) + t0);
        },
    }
}

/// Append a `TriggerCondition`.
pub fn enc_trigger_condition(out: &mut Vec<u8>, x: &TriggerCondition)
    ensures
        final(out)@ == old(out)@ + spec_enc_trigger_condition(*x),
{
    match x {
        TriggerCondition::Off() => {
            enc_u8(out, 0);
        },
        TriggerCondition::PriceBelow(a0, a1) => {
            enc_u8(out, 1);
            enc_u64(out, *a0);
            enc_price_reference(out, a1);
        },
        TriggerCondition::PriceAbove(a0, a1) => {
            enc_u8(out, 2);
            enc_u64(out, *a0);
            enc_price_reference(out, a1);
        },
        TriggerCondition::OrderCancel(a0) => {
            enc_u8(out, 3);
            enc_u64(out, *a0);
        },
        TriggerCondition::OrderFill(a0) => {
            enc_u8(out, 4);
            enc_u64(out, *a0);
        },
        TriggerCondition::OrderPartialFill(a0, a1) => {
            enc_u8(out, 5);
            enc_u64(out, *a0);
            enc_u16(out, *a1);
        },
        TriggerCondition::ImmediateOrCancelFail() => {
            enc_u8(out, 6);
        },
        TriggerCondition::FillOrKillFail() => {
            enc_u8(out, 7);
        },
        TriggerCondition::AddLiquidityOnlyFail() => {
            enc_u8(out, 8);
        },
        TriggerCondition::ReduceOnlyFail() => {
            enc_u8(out, 9);
        },
        TriggerCondition::Time(a0) => {
            enc_u8(out, 10);
            enc_u64(out, *a0);
        },
        TriggerCondition::VariantPlaceholder(a0) => {
            enc_u8(out, 11);
            enc_u128(out, *a0);
        },
    }
    proof {
        assert(final(out)@ =~= old(out)@ + spec_enc_trigger_condition(*x));
    }
}

/// Read a `TriggerCondition` at `pos`.
pub fn dec_trigger_condition(buf: &Vec<u8>, pos: usize) -> (r: Option<(TriggerCondition, usize)>)
    requires
        pos <= buf@.len(),
    ensures
        match r {
            Some(v) => pos <= v.1 <= buf@.len() && spec_dec_trigger_condition(buf@.skip(pos as int)) == Some(
                (v.0, buf@.skip(v.1 as int)),
            ),
            None => spec_dec_trigger_condition(buf@.skip(pos as int)) is None,
        },
{
    let t = match dec_u8(buf, pos) {
        Some(v) => v,
        None => { return None },
    };
        if t.0 == 0 {
            Some((TriggerCondition::Off(), t.1))
        }
        else if t.0 == 1 {
            let a0 = match dec_u64(buf, t.1) {
                Some(v) => v,
                None => { return None },
            };
            let a1 = match dec_price_reference(buf, a0.1) {
                Some(v) => v,
                None => { return None },
            };
            Some((TriggerCondition::PriceBelow(a0.0, a1.0), a1.1))
        }
        else if t.0 == 2 {
            let a0 = match dec_u64(buf, t.1) {
                Some(v) => v,
                None => { return None },
            };
            let a1 = match dec_price_reference(buf, a0.1) {
                Some(v) => v,
                None => { return None },
            };
            Some((TriggerCondition::PriceAbove(a0.0, a1.0), a1.1))
        }
        else if t.0 == 3 {
            let a0 = match dec_u64(buf, t.1) {
                Some(v) => v,
                None => { return None },
            };
            Some((TriggerCondition::OrderCancel(a0.0), a0.1))
        }
        else if t.0 == 4 {
            let a0 = match dec_u64(buf, t.1) {
                Some(v) => v,
                None => { return None },
            };
            Some((TriggerCondition::OrderFill(a0.0), a0.1))
        }
        else if t.0 == 5 {
            let a0 = match dec_u64(buf, t.1) {
                Some(v) => v,
                None => { return None },
            };
            let a1 = match dec_u16(buf, a0.1) {
                Some(v) => v,
                None => { return None },
            };
            Some((TriggerCondition::OrderPartialFill(a0.0, a1.0), a1.1))
        }
        else if t.0 == 6 {
            Some((TriggerCondition::ImmediateOrCancelFail(), t.1))
        }
        else if t.0 == 7 {
            Some((TriggerCondition::FillOrKillFail(), t.1))
        }
        else if t.0 == 8 {
            Some((TriggerCondition::AddLiquidityOnlyFail(), t.1))
        }
        else if t.0 == 9 {
            Some((TriggerCondition::ReduceOnlyFail(), t.1))
        }
        else if t.0 == 10 {
            let a0 = match dec_u64(buf, t.1) {
                Some(v) => v,
                None => { return None },
            };
            Some((TriggerCondition::Time(a0.0), a0.1))
        }
        else if t.0 == 11 {
            let a0 = match dec_u128(buf, t.1) {
                Some(v) => v,
                None => { return None },
            };
            Some((TriggerCondition::VariantPlaceholder(a0.0), a0.1))
        }
    else {
        None
    }
}

/// The canonical bytes of a `TriggerEntrySize`.
pub open spec fn spec_enc_trigger_entry_size(x: TriggerEntrySize) -> Seq<u8> {
    match x {
        TriggerEntrySize::PositionSizePercent(a0) => spec_enc_u8(0) + spec_enc_u16(a0),
        TriggerEntrySize::OrderSizePercent(a0) => spec_enc_u8(1) + spec_enc_u16(a0),
        TriggerEntrySize::FixedSize(a0) => spec_enc_u8(2) + spec_enc_u64(a0),
    }
}

/// Decode a `TriggerEntrySize`.
pub open spec fn spec_dec_trigger_entry_size(s: Seq<u8>) -> Option<(TriggerEntrySize, Seq<u8>)> {
    match spec_dec_u8(s) {
        Some(t) =>
        if t.0 == 0 {
            match spec_dec_u16(t.1) {
            Some(a0) => Some((TriggerEntrySize::PositionSizePercent(a0.0), a0.1)),
            None => None,
        }
        }
        else if t.0 == 1 {
            match spec_dec_u16(t.1) {
            Some(a0) => Some((TriggerEntrySize::OrderSizePercent(a0.0), a0.1)),
            None => None,
        }
        }
        else if t.0 == 2 {
            match spec_dec_u64(t.1) {
            Some(a0) => Some((TriggerEntrySize::FixedSize(a0.0), a0.1)),
            None => None,
        }
        }
        else {
            None
        },
        None => None,
    }
}

/// Decoding inverts encoding for a `TriggerEntrySize`.
pub proof fn lemma_trigger_entry_size_round_trip(x: TriggerEntrySize, rest: Seq<u8>)
    ensures
        spec_dec_trigger_entry_size(spec_enc_trigger_entry_size(x) + rest) == Some((x, rest)),
{
    lemma_prim_round_trip();
    match x {
        TriggerEntrySize::PositionSizePercent(a0) => {
            let t0 = spec_enc_u16(a0) + rest;
            assert(spec_enc_trigger_entry_size(x) + rest =~= spec_enc_u8(0) + t0);
        },
        TriggerEntrySize::OrderSizePercent(a0) => {
            let t0 = spec_enc_u16(a0) + rest;
            assert(spec_enc_trigger_entry_size(x) + rest =~= spec_enc_u8(1) + t0);
        },
        TriggerEntrySize::FixedSize(a0) => {
            let t0 = spec_enc_u64(a0) + rest;
            assert(spec_enc_trigger_entry_size(x) + rest =~= spec_enc_u8(2) + t0);
        },
    }
}

/// Append a `TriggerEntrySize`.
pub fn enc_trigger_entry_size(out: &mut Vec<u8>, x: &TriggerEntrySize)
    ensures
        final(out)@ == old(out)@ + spec_enc_trigger_entry_size(*x),
{
    match x {
        TriggerEntrySize::PositionSizePercent(a0) => {
            enc_u8(out, 0);
            enc_u16(out, *a0);
        },
        TriggerEntrySize::OrderSizePercent(a0) => {
            enc_u8(out, 1);
            enc_u16(out, *a0);
        },
        TriggerEntrySize::FixedSize(a0) => {
            enc_u8(out, 2);
            enc_u64(out, *a0);
        },
    }
    proof {
        assert(final(out)@ =~= old(out)@ + spec_enc_trigger_entry_size(*x));
    }
}

/// Read a `TriggerEntrySize` at `pos`.
pub fn dec_trigger_entry_size(buf: &Vec<u8>, pos: usize) -> (r: Option<(TriggerEntrySize, usize)>)
    requires
        pos <= buf@.len(),
    ensures
        match r {
            Some(v) => pos <= v.1 <= buf@.len() && spec_dec_trigger_entry_size(buf@.skip(pos as int)) == Some(
                (v.0, buf@.skip(v.1 as int)),
            ),
            None => spec_dec_trigger_entry_size(buf@.skip(pos as int)) is None,
        },
{
    let t = match dec_u8(buf, pos) {
        Some(v) => v,
        None => { return None },
    };
        if t.0 == 0 {
            let a0 = match dec_u16(buf, t.1) {
                Some(v) => v,
                None => { return None },
            };
            Some((TriggerEntrySize::PositionSizePercent(a0.0), a0.1))
        }
        else if t.0 == 1 {
            let a0 = match dec_u16(buf, t.1) {
                Some(v) => v,
                None => { return None },
            };
            Some((TriggerEntrySize::OrderSizePercent(a0.0), a0.1))
        }
        else if t.0 == 2 {
            let a0 = match dec_u64(buf, t.1) {
                Some(v) => v,
                None => { return None },
            };
            Some((TriggerEntrySize::FixedSize(a0.0), a0.1))
        }
    else {
        None
    }
}

/// The canonical bytes of a `TimeInForce`.
pub open spec fn spec_enc_tif(x: TimeInForce) -> Seq<u8> {
    match x {
        TimeInForce::IOC => spec_enc_u8(0),
        TimeInForce::FOK => spec_enc_u8(1),
        TimeInForce::GTC => spec_enc_u8(2),
        TimeInForce::ALO => spec_enc_u8(3),
        TimeInForce::GTT(a0) => spec_enc_u8(4) + spec_enc_u64(a0),
    }
}

/// Decode a `TimeInForce`.
pub open spec fn spec_dec_tif(s: Seq<u8>) -> Option<(TimeInForce, Seq<u8>)> {
    match spec_dec_u8(s) {
        Some(t) =>
        if t.0 == 0 {
            Some((TimeInForce::IOC, t.1))
        }
        else if t.0 == 1 {
            Some((TimeInForce::FOK, t.1))
        }
        else if t.0 == 2 {
            Some((TimeInForce::GTC, t.1))
        }
        else if t.0 == 3 {
            Some((TimeInForce::ALO, t.1))
        }
        else if t.0 == 4 {
            match spec_dec_u64(t.1) {
            Some(a0) => Some((TimeInForce::GTT(a0.0), a0.1)),
            None => None,
        }
        }
        else {
            None
        },
        None => None,
    }
}

/// Decoding inverts encoding for a `TimeInForce`.
pub proof fn lemma_tif_round_trip(x: TimeInForce, rest: Seq<u8>)
    ensures
        spec_dec_tif(spec_enc_tif(x) + rest) == Some((x, rest)),
{
    lemma_prim_round_trip();
    match x {
        TimeInForce::IOC => {
            assert(spec_enc_tif(x) + rest =~= spec_enc_u8(0) + rest);
        },
        TimeInForce::FOK => {
            assert(spec_enc_tif(x) + rest =~= spec_enc_u8(1) + rest);
        },
        TimeInForce::GTC => {
            assert(spec_enc_tif(x) + rest =~= spec_enc_u8(2) + rest);
        },
        TimeInForce::ALO => {
            assert(spec_enc_tif(x) + rest =~= spec_enc_u8(3) + rest);
        },
        TimeInForce::GTT(a0) => {
            let t0 = spec_enc_u64(a0) + rest;
            assert(spec_enc_tif(x) + rest =~= spec_enc_u8(4) + t0);
        },
    }
}

/// Append a `TimeInForce`.
pub fn enc_tif(out: &mut Vec<u8>, x: &TimeInForce)
    ensures
        final(out)@ == old(out)@ + spec_enc_tif(*x),
{
    match x {
        TimeInForce::IOC => {
            enc_u8(out, 0);
        },
        TimeInForce::FOK => {
            enc_u8(out, 1);
        },
        TimeInForce::GTC => {
            enc_u8(out, 2);
        },
        TimeInForce::ALO => {
            enc_u8(out, 3);
        },
        TimeInForce::GTT(a0) => {
            enc_u8(out, 4);
            enc_u64(out, *a0);
        },
    }
    proof {
        assert(final(out)@ =~= old(out)@ + spec_enc_tif(*x));
    }
}

/// Read a `TimeInForce` at `pos`.
pub fn dec_tif(buf: &Vec<u8>, pos: usize) -> (r: Option<(TimeInForce, usize)>)
    requires
        pos <= buf@.len(),
    ensures
        match r {
            Some(v) => pos <= v.1 <= buf@.len() && spec_dec_tif(buf@.skip(pos as int)) == Some(
                (v.0, buf@.skip(v.1 as int)),
            ),
            None => spec_dec_tif(buf@.skip(pos as int)) is None,
        },
{
    let t = match dec_u8(buf, pos) {
        Some(v) => v,
        None => { return None },
    };
        if t.0 == 0 {
            Some((TimeInForce::IOC, t.1))
        }
        else if t.0 == 1 {
            Some((TimeInForce::FOK, t.1))
        }
        else if t.0 == 2 {
            Some((TimeInForce::GTC, t.1))
        }
        else if t.0 == 3 {
            Some((TimeInForce::ALO, t.1))
        }
        else if t.0 == 4 {
            let a0 = match dec_u64(buf, t.1) {
                Some(v) => v,
                None => { return None },
            };
            Some((TimeInForce::GTT(a0.0), a0.1))
        }
    else {
        None
    }
}

/// The canonical bytes of an `EventHistory`.
pub open spec fn spec_enc_event_history(x: EventHistory) -> Seq<u8> {
    spec_enc_i64(x.entry_time) + spec_enc_i64(x.trigger_time) + spec_enc_i64(x.first_fill_time) + spec_enc_i64(x.last_fill_time) + spec_enc_bool(x.did_rest) + spec_enc_i64(x.dead_time) + spec_enc_u64(x.take_volume) + spec_enc_u64(x.priced_make_volume) + spec_enc_u64(x.pegged_make_volume) + spec_enc_u64(x.improve_volume) + spec_enc_u64(x.avg_fill_price) + spec_enc_u64(x.fees_booked) + x._pad1@ + x._pad2@
}

/// Decode an `EventHistory`.
pub open spec fn spec_dec_event_history(s: Seq<u8>) -> Option<(EventHistory, Seq<u8>)> {
    match spec_dec_i64(s) {
            Some(a0) => match spec_dec_i64(a0.1) {
            Some(a1) => match spec_dec_i64(a1.1) {
            Some(a2) => match spec_dec_i64(a2.1) {
            Some(a3) => match spec_dec_bool(a3.1) {
            Some(a4) => match spec_dec_i64(a4.1) {
            Some(a5) => match spec_dec_u64(a5.1) {
            Some(a6) => match spec_dec_u64(a6.1) {
            Some(a7) => match spec_dec_u64(a7.1) {
            Some(a8) => match spec_dec_u64(a8.1) {
            Some(a9) => match spec_dec_u64(a9.1) {
            Some(a10) => match spec_dec_u64(a10.1) {
            Some(a11) => match spec_dec_arr::<32>(a11.1) {
            Some(a12) => match spec_dec_arr::<32>(a12.1) {
            Some(a13) => Some(((EventHistory { entry_time: a0.0, trigger_time: a1.0, first_fill_time: a2.0, last_fill_time: a3.0, did_rest: a4.0, dead_time: a5.0, take_volume: a6.0, priced_make_volume: a7.0, pegged_make_volume: a8.0, improve_volume: a9.0, avg_fill_price: a10.0, fees_booked: a11.0, _pad1: a12.0, _pad2: a13.0 }), a13.1)),
            None => None,
        },
            None => None,
        },
            None => None,
        },
            None => None,
        },
            None => None,
        },
            None => None,
        },
            None => None,
        },
            None => None,
        },
            None => None,
        },
            None => None,
        },
            None => None,
        },
            None => None,
        },
            None => None,
        },
            None => None,
        }
}

/// Decoding inverts encoding for an `EventHistory`.
pub proof fn lemma_event_history_round_trip(x: EventHistory, rest: Seq<u8>)
    ensures
        spec_dec_event_history(spec_enc_event_history(x) + rest) == Some((x, rest)),
{
    lemma_prim_round_trip();
    let t13 = x._pad2@ + rest;
    let t12 = x._pad1@ + t13;
    let t11 = spec_enc_u64(x.fees_booked) + t12;
    let t10 = spec_enc_u64(x.avg_fill_price) + t11;
    let t9 = spec_enc_u64(x.improve_volume) + t10;
    let t8 = spec_enc_u64(x.pegged_make_volume) + t9;
    let t7 = spec_enc_u64(x.priced_make_volume) + t8;
    let t6 = spec_enc_u64(x.take_volume) + t7;
    let t5 = spec_enc_i64(x.dead_time) + t6;
    let t4 = spec_enc_bool(x.did_rest) + t5;
    let t3 = spec_enc_i64(x.last_fill_time) + t4;
    let t2 = spec_enc_i64(x.first_fill_time) + t3;
    let t1 = spec_enc_i64(x.trigger_time) + t2;
    let t0 = spec_enc_i64(x.entry_time) + t1;
    assert(spec_enc_event_history(x) + rest =~= t0);
    lemma_arr_round_trip::<32>(x._pad1, t13);
    lemma_arr_round_trip::<32>(x._pad2, rest);
}

/// Append an `EventHistory`.
pub fn enc_event_history(out: &mut Vec<u8>, x: &EventHistory)
    ensures
        final(out)@ == old(out)@ + spec_enc_event_history(*x),
{
    enc_i64(out, x.entry_time);
    enc_i64(out, x.trigger_time);
    enc_i64(out, x.first_fill_time);
    enc_i64(out, x.last_fill_time);
    enc_bool(out, x.did_rest);
    enc_i64(out, x.dead_time);
    enc_u64(out, x.take_volume);
    enc_u64(out, x.priced_make_volume);
    enc_u64(out, x.pegged_make_volume);
    enc_u64(out, x.improve_volume);
    enc_u64(out, x.avg_fill_price);
    enc_u64(out, x.fees_booked);
    enc_bytes_n(out, &x._pad1);
    enc_bytes_n(out, &x._pad2);
    proof {
        assert(final(out)@ =~= old(out)@ + spec_enc_event_history(*x));
    }
}

/// Read an `EventHistory` at `pos`.
pub fn dec_event_history(buf: &Vec<u8>, pos: usize) -> (r: Option<(EventHistory, usize)>)
    requires
        pos <= buf@.len(),
    ensures
        match r {
            Some(v) => pos <= v.1 <= buf@.len() && spec_dec_event_history(buf@.skip(pos as int)) == Some(
                (v.0, buf@.skip(v.1 as int)),
            ),
            None => spec_dec_event_history(buf@.skip(pos as int)) is None,
        },
{
    let a0 = match dec_i64(buf, pos) {
        Some(v) => v,
        None => { return None },
    };
    let a1 = match dec_i64(buf, a0.1) {
        Some(v) => v,
        None => { return None },
    };
    let a2 = match dec_i64(buf, a1.1) {
        Some(v) => v,
        None => { return None },
    };
    let a3 = match dec_i64(buf, a2.1) {
        Some(v) => v,
        None => { return None },
    };
    let a4 = match dec_bool(buf, a3.1) {
        Some(v) => v,
        None => { return None },
    };
    let a5 = match dec_i64(buf, a4.1) {
        Some(v) => v,
        None => { return None },
    };
    let a6 = match dec_u64(buf, a5.1) {
        Some(v) => v,
        None => { return None },
    };
    let a7 = match dec_u64(buf, a6.1) {
        Some(v) => v,
        None => { return None },
    };
    let a8 = match dec_u64(buf, a7.1) {
        Some(v) => v,
        None => { return None },
    };
    let a9 = match dec_u64(buf, a8.1) {
        Some(v) => v,
        None => { return None },
    };
    let a10 = match dec_u64(buf, a9.1) {
        Some(v) => v,
        None => { return None },
    };
    let a11 = match dec_u64(buf, a10.1) {
        Some(v) => v,
        None => { return None },
    };
    let a12 = match dec_bytes_n::<32>(buf, a11.1) {
        Some(v) => v,
        None => { return None },
    };
    let a13 = match dec_bytes_n::<32>(buf, a12.1) {
        Some(v) => v,
        None => { return None },
    };
    Some((EventHistory { entry_time: a0.0, trigger_time: a1.0, first_fill_time: a2.0, last_fill_time: a3.0, did_rest: a4.0, dead_time: a5.0, take_volume: a6.0, priced_make_volume: a7.0, pegged_make_volume: a8.0, improve_volume: a9.0, avg_fill_price: a10.0, fees_booked: a11.0, _pad1: a12.0, _pad2: a13.0 }, a13.1))
}

/// The canonical bytes of a `BuilderTag`.
pub open spec fn spec_enc_builder_tag(x: BuilderTag) -> Seq<u8> {
    spec_enc_u64(x.builder_id) + spec_enc_u64(x.referrer_id) + x._pad1@
}

/// Decode a `BuilderTag`.
pub open spec fn spec_dec_builder_tag(s: Seq<u8>) -> Option<(BuilderTag, Seq<u8>)> {
    match spec_dec_u64(s) {
            Some(a0) => match spec_dec_u64(a0.1) {
            Some(a1) => match spec_dec_arr::<32>(a1.1) {
            Some(a2) => Some(((BuilderTag { builder_id: a0.0, referrer_id: a1.0, _pad1: a2.0 }), a2.1)),
            None => None,
        },
            None => None,
        },
            None => None,
        }
}

/// Decoding inverts encoding for a `BuilderTag`.
pub proof fn lemma_builder_tag_round_trip(x: BuilderTag, rest: Seq<u8>)
    ensures
        spec_dec_builder_tag(spec_enc_builder_tag(x) + rest) == Some((x, rest)),
{
    lemma_prim_round_trip();
    let t2 = x._pad1@ + rest;
    let t1 = spec_enc_u64(x.referrer_id) + t2;
    let t0 = spec_enc_u64(x.builder_id) + t1;
    assert(spec_enc_builder_tag(x) + rest =~= t0);
    lemma_arr_round_trip::<32>(x._pad1, rest);
}

/// Append a `BuilderTag`.
pub fn enc_builder_tag(out: &mut Vec<u8>, x: &BuilderTag)
    ensures
        final(out)@ == old(out)@ + spec_enc_builder_tag(*x),
{
    enc_u64(out, x.builder_id);
    enc_u64(out, x.referrer_id);
    enc_bytes_n(out, &x._pad1);
    proof {
        assert(final(out)@ =~= old(out)@ + spec_enc_builder_tag(*x));
    }
}

/// Read a `BuilderTag` at `pos`.
pub fn dec_builder_tag(buf: &Vec<u8>, pos: usize) -> (r: Option<(BuilderTag, usize)>)
    requires
        pos <= buf@.len(),
    ensures
        match r {
            Some(v) => pos <= v.1 <= buf@.len() && spec_dec_builder_tag(buf@.skip(pos as int)) == Some(
                (v.0, buf@.skip(v.1 as int)),
            ),
            None => spec_dec_builder_tag(buf@.skip(pos as int)) is None,
        },
{
    let a0 = match dec_u64(buf, pos) {
        Some(v) => v,
        None => { return None },
    };
    let a1 = match dec_u64(buf, a0.1) {
        Some(v) => v,
        None => { return None },
    };
    let a2 = match dec_bytes_n::<32>(buf, a1.1) {
        Some(v) => v,
        None => { return None },
    };
    Some((BuilderTag { builder_id: a0.0, referrer_id: a1.0, _pad1: a2.0 }, a2.1))
}

/// The canonical bytes of an `OrderDetails` record.
pub open spec fn spec_enc_order_details(x: OrderDetails) -> Seq<u8> {
    spec_enc_u64(x.order_id) + spec_enc_order_side(x.side) + spec_enc_u64(x.qty) + spec_enc_u64(x.filled_qty) + spec_enc_order_price(x.price) + spec_enc_originator(x.origin) + spec_enc_trigger_condition(x.entry_cond) + spec_enc_trigger_entry_size(x.entry_cond_size) + spec_enc_trigger_condition(x.cancel_cond) + spec_enc_trigger_condition(x.cancel_cond_2) + spec_enc_trigger_condition(x.cancel_cond_3) + spec_enc_tombstone(x.tombstone) + spec_enc_event_history(x.event_history) + spec_enc_builder_tag(x.builder_tag) + x._pad1@ + x._pad2@ + x._pad3@
}

/// Decode an `OrderDetails` record.
pub open spec fn spec_dec_order_details(s: Seq<u8>) -> Option<(OrderDetails, Seq<u8>)> {
    match spec_dec_u64(s) {
            Some(a0) => match spec_dec_order_side(a0.1) {
            Some(a1) => match spec_dec_u64(a1.1) {
            Some(a2) => match spec_dec_u64(a2.1) {
            Some(a3) => match spec_dec_order_price(a3.1) {
            Some(a4) => match spec_dec_originator(a4.1) {
            Some(a5) => match spec_dec_trigger_condition(a5.1) {
            Some(a6) => match spec_dec_trigger_entry_size(a6.1) {
            Some(a7) => match spec_dec_trigger_condition(a7.1) {
            Some(a8) => match spec_dec_trigger_condition(a8.1) {
            Some(a9) => match spec_dec_trigger_condition(a9.1) {
            Some(a10) => match spec_dec_tombstone(a10.1) {
            Some(a11) => match spec_dec_event_history(a11.1) {
            Some(a12) => match spec_dec_builder_tag(a12.1) {
            Some(a13) => match spec_dec_arr::<64>(a13.1) {
            Some(a14) => match spec_dec_arr::<32>(a14.1) {
            Some(a15) => match spec_dec_arr::<24>(a15.1) {
            Some(a16) => Some(((OrderDetails { order_id: a0.0, side: a1.0, qty: a2.0, filled_qty: a3.0, price: a4.0, origin: a5.0, entry_cond: a6.0, entry_cond_size: a7.0, cancel_cond: a8.0, cancel_cond_2: a9.0, cancel_cond_3: a10.0, tombstone: a11.0, event_history: a12.0, builder_tag: a13.0, _pad1: a14.0, _pad2: a15.0, _pad3: a16.0 }), a16.1)),
            None => None,
        },
            None => None,
        },
            None => None,
        },
            None => None,
        },
            None => None,
        },
            None => None,
        },
            None => None,
        },
            None => None,
        },
            None => None,
        },
            None => None,
        },
            None => None,
        },
            None => None,
        },
            None => None,
        },
            None => None,
        },
            None => None,
        },
            None => None,
        },
            None => None,
        }
}

/// Decoding inverts encoding for an `OrderDetails` record.
#[verifier::rlimit(100)]
#[verifier::spinoff_prover]
pub proof fn lemma_order_details_round_trip(x: OrderDetails, rest: Seq<u8>)
    ensures
        spec_dec_order_details(spec_enc_order_details(x) + rest) == Some((x, rest)),
{
    lemma_prim_round_trip();
    let t16 = x._pad3@ + rest;
    let t15 = x._pad2@ + t16;
    let t14 = x._pad1@ + t15;
    let t13 = spec_enc_builder_tag(x.builder_tag) + t14;
    let t12 = spec_enc_event_history(x.event_history) + t13;
    let t11 = spec_enc_tombstone(x.tombstone) + t12;
    let t10 = spec_enc_trigger_condition(x.cancel_cond_3) + t11;
    let t9 = spec_enc_trigger_condition(x.cancel_cond_2) + t10;
    let t8 = spec_enc_trigger_condition(x.cancel_cond) + t9;
    let t7 = spec_enc_trigger_entry_size(x.entry_cond_size) + t8;
    let t6 = spec_enc_trigger_condition(x.entry_cond) + t7;
    let t5 = spec_enc_originator(x.origin) + t6;
    let t4 = spec_enc_order_price(x.price) + t5;
    let t3 = spec_enc_u64(x.filled_qty) + t4;
    let t2 = spec_enc_u64(x.qty) + t3;
    let t1 = spec_enc_order_side(x.side) + t2;
    let t0 = spec_enc_u64(x.order_id) + t1;
    assert(spec_enc_order_details(x) == ((((((((((((((((spec_enc_u64(x.order_id) + spec_enc_order_side(x.side)) + spec_enc_u64(x.qty)) + spec_enc_u64(x.filled_qty)) + spec_enc_order_price(x.price)) + spec_enc_originator(x.origin)) + spec_enc_trigger_condition(x.entry_cond)) + spec_enc_trigger_entry_size(x.entry_cond_size)) + spec_enc_trigger_condition(x.cancel_cond)) + spec_enc_trigger_condition(x.cancel_cond_2)) + spec_enc_trigger_condition(x.cancel_cond_3)) + spec_enc_tombstone(x.tombstone)) + spec_enc_event_history(x.event_history)) + spec_enc_builder_tag(x.builder_tag)) + x._pad1@) + x._pad2@) + x._pad3@));
    lemma_app_assoc((((((((((((((((spec_enc_u64(x.order_id) + spec_enc_order_side(x.side)) + spec_enc_u64(x.qty)) + spec_enc_u64(x.filled_qty)) + spec_enc_order_price(x.price)) + spec_enc_originator(x.origin)) + spec_enc_trigger_condition(x.entry_cond)) + spec_enc_trigger_entry_size(x.entry_cond_size)) + spec_enc_trigger_condition(x.cancel_cond)) + spec_enc_trigger_condition(x.cancel_cond_2)) + spec_enc_trigger_condition(x.cancel_cond_3)) + spec_enc_tombstone(x.tombstone)) + spec_enc_event_history(x.event_history)) + spec_enc_builder_tag(x.builder_tag)) + x._pad1@) + x._pad2@), x._pad3@, rest);
    lemma_app_assoc(((((((((((((((spec_enc_u64(x.order_id) + spec_enc_order_side(x.side)) + spec_enc_u64(x.qty)) + spec_enc_u64(x.filled_qty)) + spec_enc_order_price(x.price)) + spec_enc_originator(x.origin)) + spec_enc_trigger_condition(x.entry_cond)) + spec_enc_trigger_entry_size(x.entry_cond_size)) + spec_enc_trigger_condition(x.cancel_cond)) + spec_enc_trigger_condition(x.cancel_cond_2)) + spec_enc_trigger_condition(x.cancel_cond_3)) + spec_enc_tombstone(x.tombstone)) + spec_enc_event_history(x.event_history)) + spec_enc_builder_tag(x.builder_tag)) + x._pad1@), x._pad2@, t16);
    lemma_app_assoc((((((((((((((spec_enc_u64(x.order_id) + spec_enc_order_side(x.side)) + spec_enc_u64(x.qty)) + spec_enc_u64(x.filled_qty)) + spec_enc_order_price(x.price)) + spec_enc_originator(x.origin)) + spec_enc_trigger_condition(x.entry_cond)) + spec_enc_trigger_entry_size(x.entry_cond_size)) + spec_enc_trigger_condition(x.cancel_cond)) + spec_enc_trigger_condition(x.cancel_cond_2)) + spec_enc_trigger_condition(x.cancel_cond_3)) + spec_enc_tombstone(x.tombstone)) + spec_enc_event_history(x.event_history)) + spec_enc_builder_tag(x.builder_tag)), x._pad1@, t15);
    lemma_app_assoc(((((((((((((spec_enc_u64(x.order_id) + spec_enc_order_side(x.side)) + spec_enc_u64(x.qty)) + spec_enc_u64(x.filled_qty)) + spec_enc_order_price(x.price)) + spec_enc_originator(x.origin)) + spec_enc_trigger_condition(x.entry_cond)) + spec_enc_trigger_entry_size(x.entry_cond_size)) + spec_enc_trigger_condition(x.cancel_cond)) + spec_enc_trigger_condition(x.cancel_cond_2)) + spec_enc_trigger_condition(x.cancel_cond_3)) + spec_enc_tombstone(x.tombstone)) + spec_enc_event_history(x.event_history)), spec_enc_builder_tag(x.builder_tag), t14);
    lemma_app_assoc((((((((((((spec_enc_u64(x.order_id) + spec_enc_order_side(x.side)) + spec_enc_u64(x.qty)) + spec_enc_u64(x.filled_qty)) + spec_enc_order_price(x.price)) + spec_enc_originator(x.origin)) + spec_enc_trigger_condition(x.entry_cond)) + spec_enc_trigger_entry_size(x.entry_cond_size)) + spec_enc_trigger_condition(x.cancel_cond)) + spec_enc_trigger_condition(x.cancel_cond_2)) + spec_enc_trigger_condition(x.cancel_cond_3)) + spec_enc_tombstone(x.tombstone)), spec_enc_event_history(x.event_history), t13);
    lemma_app_assoc(((((((((((spec_enc_u64(x.order_id) + spec_enc_order_side(x.side)) + spec_enc_u64(x.qty)) + spec_enc_u64(x.filled_qty)) + spec_enc_order_price(x.price)) + spec_enc_originator(x.origin)) + spec_enc_trigger_condition(x.entry_cond)) + spec_enc_trigger_entry_size(x.entry_cond_size)) + spec_enc_trigger_condition(x.cancel_cond)) + spec_enc_trigger_condition(x.cancel_cond_2)) + spec_enc_trigger_condition(x.cancel_cond_3)), spec_enc_tombstone(x.tombstone), t12);
    lemma_app_assoc((((((((((spec_enc_u64(x.order_id) + spec_enc_order_side(x.side)) + spec_enc_u64(x.qty)) + spec_enc_u64(x.filled_qty)) + spec_enc_order_price(x.price)) + spec_enc_originator(x.origin)) + spec_enc_trigger_condition(x.entry_cond)) + spec_enc_trigger_entry_size(x.entry_cond_size)) + spec_enc_trigger_condition(x.cancel_cond)) + spec_enc_trigger_condition(x.cancel_cond_2)), spec_enc_trigger_condition(x.cancel_cond_3), t11);
    lemma_app_assoc(((((((((spec_enc_u64(x.order_id) + spec_enc_order_side(x.side)) + spec_enc_u64(x.qty)) + spec_enc_u64(x.filled_qty)) + spec_enc_order_price(x.price)) + spec_enc_originator(x.origin)) + spec_enc_trigger_condition(x.entry_cond)) + spec_enc_trigger_entry_size(x.entry_cond_size)) + spec_enc_trigger_condition(x.cancel_cond)), spec_enc_trigger_condition(x.cancel_cond_2), t10);
    lemma_app_assoc((((((((spec_enc_u64(x.order_id) + spec_enc_order_side(x.side)) + spec_enc_u64(x.qty)) + spec_enc_u64(x.filled_qty)) + spec_enc_order_price(x.price)) + spec_enc_originator(x.origin)) + spec_enc_trigger_condition(x.entry_cond)) + spec_enc_trigger_entry_size(x.entry_cond_size)), spec_enc_trigger_condition(x.cancel_cond), t9);
    lemma_app_assoc(((((((spec_enc_u64(x.order_id) + spec_enc_order_side(x.side)) + spec_enc_u64(x.qty)) + spec_enc_u64(x.filled_qty)) + spec_enc_order_price(x.price)) + spec_enc_originator(x.origin)) + spec_enc_trigger_condition(x.entry_cond)), spec_enc_trigger_entry_size(x.entry_cond_size), t8);
    lemma_app_assoc((((((spec_enc_u64(x.order_id) + spec_enc_order_side(x.side)) + spec_enc_u64(x.qty)) + spec_enc_u64(x.filled_qty)) + spec_enc_order_price(x.price)) + spec_enc_originator(x.origin)), spec_enc_trigger_condition(x.entry_cond), t7);
    lemma_app_assoc(((((spec_enc_u64(x.order_id) + spec_enc_order_side(x.side)) + spec_enc_u64(x.qty)) + spec_enc_u64(x.filled_qty)) + spec_enc_order_price(x.price)), spec_enc_originator(x.origin), t6);
    lemma_app_assoc((((spec_enc_u64(x.order_id) + spec_enc_order_side(x.side)) + spec_enc_u64(x.qty)) + spec_enc_u64(x.filled_qty)), spec_enc_order_price(x.price), t5);
    lemma_app_assoc(((spec_enc_u64(x.order_id) + spec_enc_order_side(x.side)) + spec_enc_u64(x.qty)), spec_enc_u64(x.filled_qty), t4);
    lemma_app_assoc((spec_enc_u64(x.order_id) + spec_enc_order_side(x.side)), spec_enc_u64(x.qty), t3);
    lemma_app_assoc(spec_enc_u64(x.order_id), spec_enc_order_side(x.side), t2);
    assert(spec_enc_order_details(x) + rest == t0);
    assert(spec_dec_u64(t0) == Some((x.order_id, t1)));
    lemma_order_side_round_trip(x.side, t2);
    assert(spec_dec_order_side(t1) == Some((x.side, t2)));
    assert(spec_dec_u64(t2) == Some((x.qty, t3)));
    assert(spec_dec_u64(t3) == Some((x.filled_qty, t4)));
    lemma_order_price_round_trip(x.price, t5);
    assert(spec_dec_order_price(t4) == Some((x.price, t5)));
    lemma_originator_round_trip(x.origin, t6);
    assert(spec_dec_originator(t5) == Some((x.origin, t6)));
    lemma_trigger_condition_round_trip(x.entry_cond, t7);
    assert(spec_dec_trigger_condition(t6) == Some((x.entry_cond, t7)));
    lemma_trigger_entry_size_round_trip(x.entry_cond_size, t8);
    assert(spec_dec_trigger_entry_size(t7) == Some((x.entry_cond_size, t8)));
    lemma_trigger_condition_round_trip(x.cancel_cond, t9);
    assert(spec_dec_trigger_condition(t8) == Some((x.cancel_cond, t9)));
    lemma_trigger_condition_round_trip(x.cancel_cond_2, t10);
    assert(spec_dec_trigger_condition(t9) == Some((x.cancel_cond_2, t10)));
    lemma_trigger_condition_round_trip(x.cancel_cond_3, t11);
    assert(spec_dec_trigger_condition(t10) == Some((x.cancel_cond_3, t11)));
    lemma_tombstone_round_trip(x.tombstone, t12);
    assert(spec_dec_tombstone(t11) == Some((x.tombstone, t12)));
    lemma_event_history_round_trip(x.event_history, t13);
    assert(spec_dec_event_history(t12) == Some((x.event_history, t13)));
    lemma_builder_tag_round_trip(x.builder_tag, t14);
    assert(spec_dec_builder_tag(t13) == Some((x.builder_tag, t14)));
    lemma_arr_round_trip::<64>(x._pad1, t15);
    assert(spec_dec_arr::<64>(t14) == Some((x._pad1, t15)));
    lemma_arr_round_trip::<32>(x._pad2, t16);
    assert(spec_dec_arr::<32>(t15) == Some((x._pad2, t16)));
    lemma_arr_round_trip::<24>(x._pad3, rest);
    assert(spec_dec_arr::<24>(t16) == Some((x._pad3, rest)));
}


/// Append an `OrderDetails` record.
pub fn enc_order_details(out: &mut Vec<u8>, x: &OrderDetails)
    ensures
        final(out)@ == old(out)@ + spec_enc_order_details(*x),
{
    enc_u64(out, x.order_id);
    enc_order_side(out, &x.side);
    enc_u64(out, x.qty);
    enc_u64(out, x.filled_qty);
    enc_order_price(out, &x.price);
    enc_originator(out, &x.origin);
    enc_trigger_condition(out, &x.entry_cond);
    enc_trigger_entry_size(out, &x.entry_cond_size);
    enc_trigger_condition(out, &x.cancel_cond);
    enc_trigger_condition(out, &x.cancel_cond_2);
    enc_trigger_condition(out, &x.cancel_cond_3);
    enc_tombstone(out, &x.tombstone);
    enc_event_history(out, &x.event_history);
    enc_builder_tag(out, &x.builder_tag);
    enc_bytes_n(out, &x._pad1);
    enc_bytes_n(out, &x._pad2);
    enc_bytes_n(out, &x._pad3);
    proof {
        assert(final(out)@ =~= old(out)@ + spec_enc_order_details(*x));
    }
}

/// Read an `OrderDetails` record at `pos`.
pub fn dec_order_details(buf: &Vec<u8>, pos: usize) -> (r: Option<(OrderDetails, usize)>)
    requires
        pos <= buf@.len(),
    ensures
        match r {
            Some(v) => pos <= v.1 <= buf@.len() && spec_dec_order_details(buf@.skip(pos as int)) == Some(
                (v.0, buf@.skip(v.1 as int)),
            ),
            None => spec_dec_order_details(buf@.skip(pos as int)) is None,
        },
{
    let a0 = match dec_u64(buf, pos) {
        Some(v) => v,
        None => { return None },
    };
    let a1 = match dec_order_side(buf, a0.1) {
        Some(v) => v,
        None => { return None },
    };
    let a2 = match dec_u64(buf, a1.1) {
        Some(v) => v,
        None => { return None },
    };
    let a3 = match dec_u64(buf, a2.1) {
        Some(v) => v,
        None => { return None },
    };
    let a4 = match dec_order_price(buf, a3.1) {
        Some(v) => v,
        None => { return None },
    };
    let a5 = match dec_originator(buf, a4.1) {
        Some(v) => v,
        None => { return None },
    };
    let a6 = match dec_trigger_condition(buf, a5.1) {
        Some(v) => v,
        None => { return None },
    };
    let a7 = match dec_trigger_entry_size(buf, a6.1) {
        Some(v) => v,
        None => { return None },
    };
    let a8 = match dec_trigger_condition(buf, a7.1) {
        Some(v) => v,
        None => { return None },
    };
    let a9 = match dec_trigger_condition(buf, a8.1) {
        Some(v) => v,
        None => { return None },
    };
    let a10 = match dec_trigger_condition(buf, a9.1) {
        Some(v) => v,
        None => { return None },
    };
    let a11 = match dec_tombstone(buf, a10.1) {
        Some(v) => v,
        None => { return None },
    };
    let a12 = match dec_event_history(buf, a11.1) {
        Some(v) => v,
        None => { return None },
    };
    let a13 = match dec_builder_tag(buf, a12.1) {
        Some(v) => v,
        None => { return None },
    };
    let a14 = match dec_bytes_n::<64>(buf, a13.1) {
        Some(v) => v,
        None => { return None },
    };
    let a15 = match dec_bytes_n::<32>(buf, a14.1) {
        Some(v) => v,
        None => { return None },
    };
    let a16 = match dec_bytes_n::<24>(buf, a15.1) {
        Some(v) => v,
        None => { return None },
    };
    Some((OrderDetails { order_id: a0.0, side: a1.0, qty: a2.0, filled_qty: a3.0, price: a4.0, origin: a5.0, entry_cond: a6.0, entry_cond_size: a7.0, cancel_cond: a8.0, cancel_cond_2: a9.0, cancel_cond_3: a10.0, tombstone: a11.0, event_history: a12.0, builder_tag: a13.0, _pad1: a14.0, _pad2: a15.0, _pad3: a16.0 }, a16.1))
}

/// The canonical bytes of an `OrderMarker`.
pub open spec fn spec_enc_order_marker(x: OrderMarker) -> Seq<u8> {
    spec_enc_pubkey(x.user) + spec_enc_u64(x.order_id) + spec_enc_u16(x.order_version) + spec_enc_u32(x.order_page) + x._pad1@
}

/// Decode an `OrderMarker`.
pub open spec fn spec_dec_order_marker(s: Seq<u8>) -> Option<(OrderMarker, Seq<u8>)> {
    match spec_dec_pubkey(s) {
            Some(a0) => match spec_dec_u64(a0.1) {
            Some(a1) => match spec_dec_u16(a1.1) {
            Some(a2) => match spec_dec_u32(a2.1) {
            Some(a3) => match spec_dec_arr::<2>(a3.1) {
            Some(a4) => Some(((OrderMarker { user: a0.0, order_id: a1.0, order_version: a2.0, order_page: a3.0, _pad1: a4.0 }), a4.1)),
            None => None,
        },
            None => None,
        },
            None => None,
        },
            None => None,
        },
            None => None,
        }
}

/// Decoding inverts encoding for an `OrderMarker`.
pub proof fn lemma_order_marker_round_trip(x: OrderMarker, rest: Seq<u8>)
    ensures
        spec_dec_order_marker(spec_enc_order_marker(x) + rest) == Some((x, rest)),
{
    lemma_prim_round_trip();
    let t4 = x._pad1@ + rest;
    let t3 = spec_enc_u32(x.order_page) + t4;
    let t2 = spec_enc_u16(x.order_version) + t3;
    let t1 = spec_enc_u64(x.order_id) + t2;
    let t0 = spec_enc_pubkey(x.user) + t1;
    assert(spec_enc_order_marker(x) + rest =~= t0);
    lemma_arr_round_trip::<2>(x._pad1, rest);
}

/// Append an `OrderMarker`.
pub fn enc_order_marker(out: &mut Vec<u8>, x: &OrderMarker)
    ensures
        final(out)@ == old(out)@ + spec_enc_order_marker(*x),
{
    enc_pubkey(out, &x.user);
    enc_u64(out, x.order_id);
    enc_u16(out, x.order_version);
    enc_u32(out, x.order_page);
    enc_bytes_n(out, &x._pad1);
    proof {
        assert(final(out)@ =~= old(out)@ + spec_enc_order_marker(*x));
    }
}

/// Read an `OrderMarker` at `pos`.
pub fn dec_order_marker(buf: &Vec<u8>, pos: usize) -> (r: Option<(OrderMarker, usize)>)
    requires
        pos <= buf@.len(),
    ensures
        match r {
            Some(v) => pos <= v.1 <= buf@.len() && spec_dec_order_marker(buf@.skip(pos as int)) == Some(
                (v.0, buf@.skip(v.1 as int)),
            ),
            None => spec_dec_order_marker(buf@.skip(pos as int)) is None,
        },
{
    let a0 = match dec_pubkey(buf, pos) {
        Some(v) => v,
        None => { return None },
    };
    let a1 = match dec_u64(buf, a0.1) {
        Some(v) => v,
        None => { return None },
    };
    let a2 = match dec_u16(buf, a1.1) {
        Some(v) => v,
        None => { return None },
    };
    let a3 = match dec_u32(buf, a2.1) {
        Some(v) => v,
        None => { return None },
    };
    let a4 = match dec_bytes_n::<2>(buf, a3.1) {
        Some(v) => v,
        None => { return None },
    };
    Some((OrderMarker { user: a0.0, order_id: a1.0, order_version: a2.0, order_page: a3.0, _pad1: a4.0 }, a4.1))
}


/// A successful decode consumed exactly the canonical bytes of its
/// result, for an `OrderSide`.
pub proof fn lemma_order_side_sound(s: Seq<u8>)
    requires
        spec_dec_order_side(s) is Some,
    ensures
        ({
            let v = spec_dec_order_side(s)->Some_0;
            s == spec_enc_order_side(v.0) + v.1
        }),
{
    lemma_prim_sound();
    let t = spec_dec_u8(s)->Some_0;
    assert(s =~= spec_enc_u8(t.0) + t.1);
    if t.0 == 0 {
        assert(spec_enc_order_side(spec_dec_order_side(s)->Some_0.0) == spec_enc_u8(0));
    }
    else if t.0 == 1 {
        assert(spec_enc_order_side(spec_dec_order_side(s)->Some_0.0) == spec_enc_u8(1));
    }
}

/// A successful decode consumed exactly the canonical bytes of its
/// result, for an `OrderTombstone`.
pub proof fn lemma_tombstone_sound(s: Seq<u8>)
    requires
        spec_dec_tombstone(s) is Some,
    ensures
        ({
            let v = spec_dec_tombstone(s)->Some_0;
            s == spec_enc_tombstone(v.0) + v.1
        }),
{
    lemma_prim_sound();
    let t = spec_dec_u8(s)->Some_0;
    assert(s =~= spec_enc_u8(t.0) + t.1);
    if t.0 == 0 {
        assert(spec_enc_tombstone(spec_dec_tombstone(s)->Some_0.0) == spec_enc_u8(0));
    }
    else if t.0 == 1 {
        assert(spec_enc_tombstone(spec_dec_tombstone(s)->Some_0.0) == spec_enc_u8(1));
    }
    else if t.0 == 2 {
        assert(spec_enc_tombstone(spec_dec_tombstone(s)->Some_0.0) == spec_enc_u8(2));
    }
    else if t.0 == 3 {
        assert(spec_enc_tombstone(spec_dec_tombstone(s)->Some_0.0) == spec_enc_u8(3));
    }
    else if t.0 == 4 {
        assert(spec_enc_tombstone(spec_dec_tombstone(s)->Some_0.0) == spec_enc_u8(4));
    }
    else if t.0 == 5 {
        assert(spec_enc_tombstone(spec_dec_tombstone(s)->Some_0.0) == spec_enc_u8(5));
    }
    else if t.0 == 6 {
        assert(spec_enc_tombstone(spec_dec_tombstone(s)->Some_0.0) == spec_enc_u8(6));
    }
    else if t.0 == 7 {
        assert(spec_enc_tombstone(spec_dec_tombstone(s)->Some_0.0) == spec_enc_u8(7));
    }
    else if t.0 == 8 {
        assert(spec_enc_tombstone(spec_dec_tombstone(s)->Some_0.0) == spec_enc_u8(8));
    }
    else if t.0 == 9 {
        assert(spec_enc_tombstone(spec_dec_tombstone(s)->Some_0.0) == spec_enc_u8(9));
    }
    else if t.0 == 10 {
        assert(spec_enc_tombstone(spec_dec_tombstone(s)->Some_0.0) == spec_enc_u8(10));
    }
    else if t.0 == 11 {
        assert(spec_enc_tombstone(spec_dec_tombstone(s)->Some_0.0) == spec_enc_u8(11));
    }
    else if t.0 == 12 {
        assert(spec_enc_tombstone(spec_dec_tombstone(s)->Some_0.0) == spec_enc_u8(12));
    }
    else if t.0 == 13 {
        assert(spec_enc_tombstone(spec_dec_tombstone(s)->Some_0.0) == spec_enc_u8(13));
    }
    else if t.0 == 14 {
        assert(spec_enc_tombstone(spec_dec_tombstone(s)->Some_0.0) == spec_enc_u8(14));
    }
    else if t.0 == 15 {
        assert(spec_enc_tombstone(spec_dec_tombstone(s)->Some_0.0) == spec_enc_u8(15));
    }
    else if t.0 == 16 {
        assert(spec_enc_tombstone(spec_dec_tombstone(s)->Some_0.0) == spec_enc_u8(16));
    }
    else if t.0 == 17 {
        assert(spec_enc_tombstone(spec_dec_tombstone(s)->Some_0.0) == spec_enc_u8(17));
    }
    else if t.0 == 18 {
        assert(spec_enc_tombstone(spec_dec_tombstone(s)->Some_0.0) == spec_enc_u8(18));
    }
    else if t.0 == 19 {
        assert(spec_enc_tombstone(spec_dec_tombstone(s)->Some_0.0) == spec_enc_u8(19));
    }
    else if t.0 == 20 {
        assert(spec_enc_tombstone(spec_dec_tombstone(s)->Some_0.0) == spec_enc_u8(20));
    }
    else if t.0 == 21 {
        assert(spec_enc_tombstone(spec_dec_tombstone(s)->Some_0.0) == spec_enc_u8(21));
    }
    else if t.0 == 22 {
        assert(spec_enc_tombstone(spec_dec_tombstone(s)->Some_0.0) == spec_enc_u8(22));
    }
    else if t.0 == 23 {
        assert(spec_enc_tombstone(spec_dec_tombstone(s)->Some_0.0) == spec_enc_u8(23));
    }
    else if t.0 == 24 {
        assert(spec_enc_tombstone(spec_dec_tombstone(s)->Some_0.0) == spec_enc_u8(24));
    }
    else if t.0 == 25 {
        assert(spec_enc_tombstone(spec_dec_tombstone(s)->Some_0.0) == spec_enc_u8(25));
    }
    else if t.0 == 26 {
        assert(spec_enc_tombstone(spec_dec_tombstone(s)->Some_0.0) == spec_enc_u8(26));
    }
    else if t.0 == 27 {
        assert(spec_enc_tombstone(spec_dec_tombstone(s)->Some_0.0) == spec_enc_u8(27));
    }
}

/// A successful decode consumed exactly the canonical bytes of its
/// result, for a `PegPriceReference`.
pub proof fn lemma_peg_price_reference_sound(s: Seq<u8>)
    requires
        spec_dec_peg_price_reference(s) is Some,
    ensures
        ({
            let v = spec_dec_peg_price_reference(s)->Some_0;
            s == spec_enc_peg_price_reference(v.0) + v.1
        }),
{
    lemma_prim_sound();
    let t = spec_dec_u8(s)->Some_0;
    assert(s =~= spec_enc_u8(t.0) + t.1);
    if t.0 == 0 {
        assert(spec_enc_peg_price_reference(spec_dec_peg_price_reference(s)->Some_0.0) == spec_enc_u8(0));
    }
}

/// A successful decode consumed exactly the canonical bytes of its
/// result, for a `PriceReference`.
pub proof fn lemma_price_reference_sound(s: Seq<u8>)
    requires
        spec_dec_price_reference(s) is Some,
    ensures
        ({
            let v = spec_dec_price_reference(s)->Some_0;
            s == spec_enc_price_reference(v.0) + v.1
        }),
{
    lemma_prim_sound();
    let t = spec_dec_u8(s)->Some_0;
    assert(s =~= spec_enc_u8(t.0) + t.1);
    if t.0 == 0 {
        assert(spec_enc_price_reference(spec_dec_price_reference(s)->Some_0.0) == spec_enc_u8(0));
    }
    else if t.0 == 1 {
        assert(spec_enc_price_reference(spec_dec_price_reference(s)->Some_0.0) == spec_enc_u8(1));
    }
    else if t.0 == 2 {
        assert(spec_enc_price_reference(spec_dec_price_reference(s)->Some_0.0) == spec_enc_u8(2));
    }
    else if t.0 == 3 {
        assert(spec_enc_price_reference(spec_dec_price_reference(s)->Some_0.0) == spec_enc_u8(3));
    }
    else if t.0 == 4 {
        assert(spec_enc_price_reference(spec_dec_price_reference(s)->Some_0.0) == spec_enc_u8(4));
    }
    else if t.0 == 5 {
        assert(spec_enc_price_reference(spec_dec_price_reference(s)->Some_0.0) == spec_enc_u8(5));
    }
    else if t.0 == 6 {
        assert(spec_enc_price_reference(spec_dec_price_reference(s)->Some_0.0) == spec_enc_u8(6));
    }
}

/// A successful decode consumed exactly the canonical bytes of its
/// result, for an `OrderPrice`.
pub proof fn lemma_order_price_sound(s: Seq<u8>)
    requires
        spec_dec_order_price(s) is Some,
    ensures
        ({
            let v = spec_dec_order_price(s)->Some_0;
            s == spec_enc_order_price(v.0) + v.1
        }),
{
    lemma_prim_sound();
    let t = spec_dec_u8(s)->Some_0;
    assert(s =~= spec_enc_u8(t.0) + t.1);
    if t.0 == 0 {
        assert(spec_enc_order_price(spec_dec_order_price(s)->Some_0.0) == spec_enc_u8(0));
    }
    else if t.0 == 1 {
        let a0 = spec_dec_u64(t.1)->Some_0;
        assert(s =~= spec_enc_u8(1) + t.1);
        lemma_app_assoc(spec_enc_u8(1), spec_enc_u64(a0.0), a0.1);
        assert(s =~= (spec_enc_u8(1) + spec_enc_u64(a0.0)) + a0.1);
        assert(spec_enc_order_price(spec_dec_order_price(s)->Some_0.0) == (spec_enc_u8(1) + spec_enc_u64(a0.0)));
    }
    else if t.0 == 2 {
        let a0 = spec_dec_i64(t.1)->Some_0;
        let a1 = spec_dec_peg_price_reference(a0.1)->Some_0;
        lemma_peg_price_reference_sound(a0.1);
        assert(s =~= spec_enc_u8(2) + t.1);
        lemma_app_assoc(spec_enc_u8(2), spec_enc_i64(a0.0), a0.1);
        assert(s =~= (spec_enc_u8(2) + spec_enc_i64(a0.0)) + a0.1);
        lemma_app_assoc((spec_enc_u8(2) + spec_enc_i64(a0.0)), spec_enc_peg_price_reference(a1.0), a1.1);
        assert(s =~= ((spec_enc_u8(2) + spec_enc_i64(a0.0)) + spec_enc_peg_price_reference(a1.0)) + a1.1);
        assert(spec_enc_order_price(spec_dec_order_price(s)->Some_0.0) == ((spec_enc_u8(2) + spec_enc_i64(a0.0)) + spec_enc_peg_price_reference(a1.0)));
    }
}

/// A successful decode consumed exactly the canonical bytes of its
/// result, for an `OrderOriginator`.
pub proof fn lemma_originator_sound(s: Seq<u8>)
    requires
        spec_dec_originator(s) is Some,
    ensures
        ({
            let v = spec_dec_originator(s)->Some_0;
            s == spec_enc_originator(v.0) + v.1
        }),
{
    lemma_prim_sound();
    let t = spec_dec_u8(s)->Some_0;
    assert(s =~= spec_enc_u8(t.0) + t.1);
    if t.0 == 0 {
        assert(spec_enc_originator(spec_dec_originator(s)->Some_0.0) == spec_enc_u8(0));
    }
    else if t.0 == 1 {
        assert(spec_enc_originator(spec_dec_originator(s)->Some_0.0) == spec_enc_u8(1));
    }
    else if t.0 == 2 {
        assert(spec_enc_originator(spec_dec_originator(s)->Some_0.0) == spec_enc_u8(2));
    }
    else if t.0 == 3 {
        assert(spec_enc_originator(spec_dec_originator(s)->Some_0.0) == spec_enc_u8(3));
    }
    else if t.0 == 4 {
        assert(spec_enc_originator(spec_dec_originator(s)->Some_0.0) == spec_enc_u8(4));
    }
    else if t.0 == 5 {
        assert(spec_enc_originator(spec_dec_originator(s)->Some_0.0) == spec_enc_u8(5));
    }
    else if t.0 == 6 {
        assert(spec_enc_originator(spec_dec_originator(s)->Some_0.0) == spec_enc_u8(6));
    }
    else if t.0 == 7 {
        let a0 = spec_dec_u128(t.1)->Some_0;
        assert(s =~= spec_enc_u8(7) + t.1);
        lemma_app_assoc(spec_enc_u8(7), spec_enc_u128(a0.0), a0.1);
        assert(s =~= (spec_enc_u8(7) + spec_enc_u128(a0.0)) + a0.1);
        assert(spec_enc_originator(spec_dec_originator(s)->Some_0.0) == (spec_enc_u8(7) + spec_enc_u128(a0.0)));
    }
}

/// A successful decode consumed exactly the canonical bytes of its
/// result, for a `TriggerCondition`.
pub proof fn lemma_trigger_condition_sound(s: Seq<u8>)
    requires
        spec_dec_trigger_condition(s) is Some,
    ensures
        ({
            let v = spec_dec_trigger_condition(s)->Some_0;
            s == spec_enc_trigger_condition(v.0) + v.1
        }),
{
    lemma_prim_sound();
    let t = spec_dec_u8(s)->Some_0;
    assert(s =~= spec_enc_u8(t.0) + t.1);
    if t.0 == 0 {
        assert(spec_enc_trigger_condition(spec_dec_trigger_condition(s)->Some_0.0) == spec_enc_u8(0));
    }
    else if t.0 == 1 {
        let a0 = spec_dec_u64(t.1)->Some_0;
        let a1 = spec_dec_price_reference(a0.1)->Some_0;
        lemma_price_reference_sound(a0.1);
        assert(s =~= spec_enc_u8(1) + t.1);
        lemma_app_assoc(spec_enc_u8(1), spec_enc_u64(a0.0), a0.1);
        assert(s =~= (spec_enc_u8(1) + spec_enc_u64(a0.0)) + a0.1);
        lemma_app_assoc((spec_enc_u8(1) + spec_enc_u64(a0.0)), spec_enc_price_reference(a1.0), a1.1);
        assert(s =~= ((spec_enc_u8(1) + spec_enc_u64(a0.0)) + spec_enc_price_reference(a1.0)) + a1.1);
        assert(spec_enc_trigger_condition(spec_dec_trigger_condition(s)->Some_0.0) == ((spec_enc_u8(1) + spec_enc_u64(a0.0)) + spec_enc_price_reference(a1.0)));
    }
    else if t.0 == 2 {
        let a0 = spec_dec_u64(t.1)->Some_0;
        let a1 = spec_dec_price_reference(a0.1)->Some_0;
        lemma_price_reference_sound(a0.1);
        assert(s =~= spec_enc_u8(2) + t.1);
        lemma_app_assoc(spec_enc_u8(2), spec_enc_u64(a0.0), a0.1);
        assert(s =~= (spec_enc_u8(2) + spec_enc_u64(a0.0)) + a0.1);
        lemma_app_assoc((spec_enc_u8(2) + spec_enc_u64(a0.0)), spec_enc_price_reference(a1.0), a1.1);
        assert(s =~= ((spec_enc_u8(2) + spec_enc_u64(a0.0)) + spec_enc_price_reference(a1.0)) + a1.1);
        assert(spec_enc_trigger_condition(spec_dec_trigger_condition(s)->Some_0.0) == ((spec_enc_u8(2) + spec_enc_u64(a0.0)) + spec_enc_price_reference(a1.0)));
    }
    else if t.0 == 3 {
        let a0 = spec_dec_u64(t.1)->Some_0;
        assert(s =~= spec_enc_u8(3) + t.1);
        lemma_app_assoc(spec_enc_u8(3), spec_enc_u64(a0.0), a0.1);
        assert(s =~= (spec_enc_u8(3) + spec_enc_u64(a0.0)) + a0.1);
        assert(spec_enc_trigger_condition(spec_dec_trigger_condition(s)->Some_0.0) == (spec_enc_u8(3) + spec_enc_u64(a0.0)));
    }
    else if t.0 == 4 {
        let a0 = spec_dec_u64(t.1)->Some_0;
        assert(s =~= spec_enc_u8(4) + t.1);
        lemma_app_assoc(spec_enc_u8(4), spec_enc_u64(a0.0), a0.1);
        assert(s =~= (spec_enc_u8(4) + spec_enc_u64(a0.0)) + a0.1);
        assert(spec_enc_trigger_condition(spec_dec_trigger_condition(s)->Some_0.0) == (spec_enc_u8(4) + spec_enc_u64(a0.0)));
    }
    else if t.0 == 5 {
        let a0 = spec_dec_u64(t.1)->Some_0;
        let a1 = spec_dec_u16(a0.1)->Some_0;
        assert(s =~= spec_enc_u8(5) + t.1);
        lemma_app_assoc(spec_enc_u8(5), spec_enc_u64(a0.0), a0.1);
        assert(s =~= (spec_enc_u8(5) + spec_enc_u64(a0.0)) + a0.1);
        lemma_app_assoc((spec_enc_u8(5) + spec_enc_u64(a0.0)), spec_enc_u16(a1.0), a1.1);
        assert(s =~= ((spec_enc_u8(5) + spec_enc_u64(a0.0)) + spec_enc_u16(a1.0)) + a1.1);
        assert(spec_enc_trigger_condition(spec_dec_trigger_condition(s)->Some_0.0) == ((spec_enc_u8(5) + spec_enc_u64(a0.0)) + spec_enc_u16(a1.0)));
    }
    else if t.0 == 6 {
        assert(spec_enc_trigger_condition(spec_dec_trigger_condition(s)->Some_0.0) == spec_enc_u8(6));
    }
    else if t.0 == 7 {
        assert(spec_enc_trigger_condition(spec_dec_trigger_condition(s)->Some_0.0) == spec_enc_u8(7));
    }
    else if t.0 == 8 {
        assert(spec_enc_trigger_condition(spec_dec_trigger_condition(s)->Some_0.0) == spec_enc_u8(8));
    }
    else if t.0 == 9 {
        assert(spec_enc_trigger_condition(spec_dec_trigger_condition(s)->Some_0.0) == spec_enc_u8(9));
    }
    else if t.0 == 10 {
        let a0 = spec_dec_u64(t.1)->Some_0;
        assert(s =~= spec_enc_u8(10) + t.1);
        lemma_app_assoc(spec_enc_u8(10), spec_enc_u64(a0.0), a0.1);
        assert(s =~= (spec_enc_u8(10) + spec_enc_u64(a0.0)) + a0.1);
        assert(spec_enc_trigger_condition(spec_dec_trigger_condition(s)->Some_0.0) == (spec_enc_u8(10) + spec_enc_u64(a0.0)));
    }
    else if t.0 == 11 {
        let a0 = spec_dec_u128(t.1)->Some_0;
        assert(s =~= spec_enc_u8(11) + t.1);
        lemma_app_assoc(spec_enc_u8(11), spec_enc_u128(a0.0), a0.1);
        assert(s =~= (spec_enc_u8(11) + spec_enc_u128(a0.0)) + a0.1);
        assert(spec_enc_trigger_condition(spec_dec_trigger_condition(s)->Some_0.0) == (spec_enc_u8(11) + spec_enc_u128(a0.0)));
    }
}

/// A successful decode consumed exactly the canonical bytes of its
/// result, for a `TriggerEntrySize`.
pub proof fn lemma_trigger_entry_size_sound(s: Seq<u8>)
    requires
        spec_dec_trigger_entry_size(s) is Some,
    ensures
        ({
            let v = spec_dec_trigger_entry_size(s)->Some_0;
            s == spec_enc_trigger_entry_size(v.0) + v.1
        }),
{
    lemma_prim_sound();
    let t = spec_dec_u8(s)->Some_0;
    assert(s =~= spec_enc_u8(t.0) + t.1);
    if t.0 == 0 {
        let a0 = spec_dec_u16(t.1)->Some_0;
        assert(s =~= spec_enc_u8(0) + t.1);
        lemma_app_assoc(spec_enc_u8(0), spec_enc_u16(a0.0), a0.1);
        assert(s =~= (spec_enc_u8(0) + spec_enc_u16(a0.0)) + a0.1);
        assert(spec_enc_trigger_entry_size(spec_dec_trigger_entry_size(s)->Some_0.0) == (spec_enc_u8(0) + spec_enc_u16(a0.0)));
    }
    else if t.0 == 1 {
        let a0 = spec_dec_u16(t.1)->Some_0;
        assert(s =~= spec_enc_u8(1) + t.1);
        lemma_app_assoc(spec_enc_u8(1), spec_enc_u16(a0.0), a0.1);
        assert(s =~= (spec_enc_u8(1) + spec_enc_u16(a0.0)) + a0.1);
        assert(spec_enc_trigger_entry_size(spec_dec_trigger_entry_size(s)->Some_0.0) == (spec_enc_u8(1) + spec_enc_u16(a0.0)));
    }
    else if t.0 == 2 {
        let a0 = spec_dec_u64(t.1)->Some_0;
        assert(s =~= spec_enc_u8(2) + t.1);
        lemma_app_assoc(spec_enc_u8(2), spec_enc_u64(a0.0), a0.1);
        assert(s =~= (spec_enc_u8(2) + spec_enc_u64(a0.0)) + a0.1);
        assert(spec_enc_trigger_entry_size(spec_dec_trigger_entry_size(s)->Some_0.0) == (spec_enc_u8(2) + spec_enc_u64(a0.0)));
    }
}

/// A successful decode consumed exactly the canonical bytes of its
/// result, for a `TimeInForce`.
pub proof fn lemma_tif_sound(s: Seq<u8>)
    requires
        spec_dec_tif(s) is Some,
    ensures
        ({
            let v = spec_dec_tif(s)->Some_0;
            s == spec_enc_tif(v.0) + v.1
        }),
{
    lemma_prim_sound();
    let t = spec_dec_u8(s)->Some_0;
    assert(s =~= spec_enc_u8(t.0) + t.1);
    if t.0 == 0 {
        assert(spec_enc_tif(spec_dec_tif(s)->Some_0.0) == spec_enc_u8(0));
    }
    else if t.0 == 1 {
        assert(spec_enc_tif(spec_dec_tif(s)->Some_0.0) == spec_enc_u8(1));
    }
    else if t.0 == 2 {
        assert(spec_enc_tif(spec_dec_tif(s)->Some_0.0) == spec_enc_u8(2));
    }
    else if t.0 == 3 {
        assert(spec_enc_tif(spec_dec_tif(s)->Some_0.0) == spec_enc_u8(3));
    }
    else if t.0 == 4 {
        let a0 = spec_dec_u64(t.1)->Some_0;
        assert(s =~= spec_enc_u8(4) + t.1);
        lemma_app_assoc(spec_enc_u8(4), spec_enc_u64(a0.0), a0.1);
        assert(s =~= (spec_enc_u8(4) + spec_enc_u64(a0.0)) + a0.1);
        assert(spec_enc_tif(spec_dec_tif(s)->Some_0.0) == (spec_enc_u8(4) + spec_enc_u64(a0.0)));
    }
}

/// A successful decode consumed exactly the canonical bytes of its
/// result, for an `EventHistory`.
#[verifier::rlimit(100)]
#[verifier::spinoff_prover]
pub proof fn lemma_event_history_sound(s: Seq<u8>)
    requires
        spec_dec_event_history(s) is Some,
    ensures
        ({
            let v = spec_dec_event_history(s)->Some_0;
            s == spec_enc_event_history(v.0) + v.1
        }),
{
    lemma_prim_sound();
    let a0 = spec_dec_i64(s)->Some_0;
    let a1 = spec_dec_i64(a0.1)->Some_0;
    let a2 = spec_dec_i64(a1.1)->Some_0;
    let a3 = spec_dec_i64(a2.1)->Some_0;
    let a4 = spec_dec_bool(a3.1)->Some_0;
    let a5 = spec_dec_i64(a4.1)->Some_0;
    let a6 = spec_dec_u64(a5.1)->Some_0;
    let a7 = spec_dec_u64(a6.1)->Some_0;
    let a8 = spec_dec_u64(a7.1)->Some_0;
    let a9 = spec_dec_u64(a8.1)->Some_0;
    let a10 = spec_dec_u64(a9.1)->Some_0;
    let a11 = spec_dec_u64(a10.1)->Some_0;
    let a12 = spec_dec_arr::<32>(a11.1)->Some_0;
    lemma_arr_sound::<32>(a11.1);
    let a13 = spec_dec_arr::<32>(a12.1)->Some_0;
    lemma_arr_sound::<32>(a12.1);
    assert(s =~= spec_enc_i64(a0.0) + a0.1);
    lemma_app_assoc(spec_enc_i64(a0.0), spec_enc_i64(a1.0), a1.1);
    assert(s =~= (spec_enc_i64(a0.0) + spec_enc_i64(a1.0)) + a1.1);
    lemma_app_assoc((spec_enc_i64(a0.0) + spec_enc_i64(a1.0)), spec_enc_i64(a2.0), a2.1);
    assert(s =~= ((spec_enc_i64(a0.0) + spec_enc_i64(a1.0)) + spec_enc_i64(a2.0)) + a2.1);
    lemma_app_assoc(((spec_enc_i64(a0.0) + spec_enc_i64(a1.0)) + spec_enc_i64(a2.0)), spec_enc_i64(a3.0), a3.1);
    assert(s =~= (((spec_enc_i64(a0.0) + spec_enc_i64(a1.0)) + spec_enc_i64(a2.0)) + spec_enc_i64(a3.0)) + a3.1);
    lemma_app_assoc((((spec_enc_i64(a0.0) + spec_enc_i64(a1.0)) + spec_enc_i64(a2.0)) + spec_enc_i64(a3.0)), spec_enc_bool(a4.0), a4.1);
    assert(s =~= ((((spec_enc_i64(a0.0) + spec_enc_i64(a1.0)) + spec_enc_i64(a2.0)) + spec_enc_i64(a3.0)) + spec_enc_bool(a4.0)) + a4.1);
    lemma_app_assoc(((((spec_enc_i64(a0.0) + spec_enc_i64(a1.0)) + spec_enc_i64(a2.0)) + spec_enc_i64(a3.0)) + spec_enc_bool(a4.0)), spec_enc_i64(a5.0), a5.1);
    assert(s =~= (((((spec_enc_i64(a0.0) + spec_enc_i64(a1.0)) + spec_enc_i64(a2.0)) + spec_enc_i64(a3.0)) + spec_enc_bool(a4.0)) + spec_enc_i64(a5.0)) + a5.1);
    lemma_app_assoc((((((spec_enc_i64(a0.0) + spec_enc_i64(a1.0)) + spec_enc_i64(a2.0)) + spec_enc_i64(a3.0)) + spec_enc_bool(a4.0)) + spec_enc_i64(a5.0)), spec_enc_u64(a6.0), a6.1);
    assert(s =~= ((((((spec_enc_i64(a0.0) + spec_enc_i64(a1.0)) + spec_enc_i64(a2.0)) + spec_enc_i64(a3.0)) + spec_enc_bool(a4.0)) + spec_enc_i64(a5.0)) + spec_enc_u64(a6.0)) + a6.1);
    lemma_app_assoc(((((((spec_enc_i64(a0.0) + spec_enc_i64(a1.0)) + spec_enc_i64(a2.0)) + spec_enc_i64(a3.0)) + spec_enc_bool(a4.0)) + spec_enc_i64(a5.0)) + spec_enc_u64(a6.0)), spec_enc_u64(a7.0), a7.1);
    assert(s =~= (((((((spec_enc_i64(a0.0) + spec_enc_i64(a1.0)) + spec_enc_i64(a2.0)) + spec_enc_i64(a3.0)) + spec_enc_bool(a4.0)) + spec_enc_i64(a5.0)) + spec_enc_u64(a6.0)) + spec_enc_u64(a7.0)) + a7.1);
    lemma_app_assoc((((((((spec_enc_i64(a0.0) + spec_enc_i64(a1.0)) + spec_enc_i64(a2.0)) + spec_enc_i64(a3.0)) + spec_enc_bool(a4.0)) + spec_enc_i64(a5.0)) + spec_enc_u64(a6.0)) + spec_enc_u64(a7.0)), spec_enc_u64(a8.0), a8.1);
    assert(s =~= ((((((((spec_enc_i64(a0.0) + spec_enc_i64(a1.0)) + spec_enc_i64(a2.0)) + spec_enc_i64(a3.0)) + spec_enc_bool(a4.0)) + spec_enc_i64(a5.0)) + spec_enc_u64(a6.0)) + spec_enc_u64(a7.0)) + spec_enc_u64(a8.0)) + a8.1);
    lemma_app_assoc(((((((((spec_enc_i64(a0.0) + spec_enc_i64(a1.0)) + spec_enc_i64(a2.0)) + spec_enc_i64(a3.0)) + spec_enc_bool(a4.0)) + spec_enc_i64(a5.0)) + spec_enc_u64(a6.0)) + spec_enc_u64(a7.0)) + spec_enc_u64(a8.0)), spec_enc_u64(a9.0), a9.1);
    assert(s =~= (((((((((spec_enc_i64(a0.0) + spec_enc_i64(a1.0)) + spec_enc_i64(a2.0)) + spec_enc_i64(a3.0)) + spec_enc_bool(a4.0)) + spec_enc_i64(a5.0)) + spec_enc_u64(a6.0)) + spec_enc_u64(a7.0)) + spec_enc_u64(a8.0)) + spec_enc_u64(a9.0)) + a9.1);
    lemma_app_assoc((((((((((spec_enc_i64(a0.0) + spec_enc_i64(a1.0)) + spec_enc_i64(a2.0)) + spec_enc_i64(a3.0)) + spec_enc_bool(a4.0)) + spec_enc_i64(a5.0)) + spec_enc_u64(a6.0)) + spec_enc_u64(a7.0)) + spec_enc_u64(a8.0)) + spec_enc_u64(a9.0)), spec_enc_u64(a10.0), a10.1);
    assert(s =~= ((((((((((spec_enc_i64(a0.0) + spec_enc_i64(a1.0)) + spec_enc_i64(a2.0)) + spec_enc_i64(a3.0)) + spec_enc_bool(a4.0)) + spec_enc_i64(a5.0)) + spec_enc_u64(a6.0)) + spec_enc_u64(a7.0)) + spec_enc_u64(a8.0)) + spec_enc_u64(a9.0)) + spec_enc_u64(a10.0)) + a10.1);
    lemma_app_assoc(((((((((((spec_enc_i64(a0.0) + spec_enc_i64(a1.0)) + spec_enc_i64(a2.0)) + spec_enc_i64(a3.0)) + spec_enc_bool(a4.0)) + spec_enc_i64(a5.0)) + spec_enc_u64(a6.0)) + spec_enc_u64(a7.0)) + spec_enc_u64(a8.0)) + spec_enc_u64(a9.0)) + spec_enc_u64(a10.0)), spec_enc_u64(a11.0), a11.1);
    assert(s =~= (((((((((((spec_enc_i64(a0.0) + spec_enc_i64(a1.0)) + spec_enc_i64(a2.0)) + spec_enc_i64(a3.0)) + spec_enc_bool(a4.0)) + spec_enc_i64(a5.0)) + spec_enc_u64(a6.0)) + spec_enc_u64(a7.0)) + spec_enc_u64(a8.0)) + spec_enc_u64(a9.0)) + spec_enc_u64(a10.0)) + spec_enc_u64(a11.0)) + a11.1);
    lemma_app_assoc((((((((((((spec_enc_i64(a0.0) + spec_enc_i64(a1.0)) + spec_enc_i64(a2.0)) + spec_enc_i64(a3.0)) + spec_enc_bool(a4.0)) + spec_enc_i64(a5.0)) + spec_enc_u64(a6.0)) + spec_enc_u64(a7.0)) + spec_enc_u64(a8.0)) + spec_enc_u64(a9.0)) + spec_enc_u64(a10.0)) + spec_enc_u64(a11.0)), a12.0@, a12.1);
    assert(s =~= ((((((((((((spec_enc_i64(a0.0) + spec_enc_i64(a1.0)) + spec_enc_i64(a2.0)) + spec_enc_i64(a3.0)) + spec_enc_bool(a4.0)) + spec_enc_i64(a5.0)) + spec_enc_u64(a6.0)) + spec_enc_u64(a7.0)) + spec_enc_u64(a8.0)) + spec_enc_u64(a9.0)) + spec_enc_u64(a10.0)) + spec_enc_u64(a11.0)) + a12.0@) + a12.1);
    lemma_app_assoc(((((((((((((spec_enc_i64(a0.0) + spec_enc_i64(a1.0)) + spec_enc_i64(a2.0)) + spec_enc_i64(a3.0)) + spec_enc_bool(a4.0)) + spec_enc_i64(a5.0)) + spec_enc_u64(a6.0)) + spec_enc_u64(a7.0)) + spec_enc_u64(a8.0)) + spec_enc_u64(a9.0)) + spec_enc_u64(a10.0)) + spec_enc_u64(a11.0)) + a12.0@), a13.0@, a13.1);
    assert(s =~= (((((((((((((spec_enc_i64(a0.0) + spec_enc_i64(a1.0)) + spec_enc_i64(a2.0)) + spec_enc_i64(a3.0)) + spec_enc_bool(a4.0)) + spec_enc_i64(a5.0)) + spec_enc_u64(a6.0)) + spec_enc_u64(a7.0)) + spec_enc_u64(a8.0)) + spec_enc_u64(a9.0)) + spec_enc_u64(a10.0)) + spec_enc_u64(a11.0)) + a12.0@) + a13.0@) + a13.1);
    assert(spec_enc_event_history(spec_dec_event_history(s)->Some_0.0) == (((((((((((((spec_enc_i64(a0.0) + spec_enc_i64(a1.0)) + spec_enc_i64(a2.0)) + spec_enc_i64(a3.0)) + spec_enc_bool(a4.0)) + spec_enc_i64(a5.0)) + spec_enc_u64(a6.0)) + spec_enc_u64(a7.0)) + spec_enc_u64(a8.0)) + spec_enc_u64(a9.0)) + spec_enc_u64(a10.0)) + spec_enc_u64(a11.0)) + a12.0@) + a13.0@));
}

/// A successful decode consumed exactly the canonical bytes of its
/// result, for a `BuilderTag`.
pub proof fn lemma_builder_tag_sound(s: Seq<u8>)
    requires
        spec_dec_builder_tag(s) is Some,
    ensures
        ({
            let v = spec_dec_builder_tag(s)->Some_0;
            s == spec_enc_builder_tag(v.0) + v.1
        }),
{
    lemma_prim_sound();
    let a0 = spec_dec_u64(s)->Some_0;
    let a1 = spec_dec_u64(a0.1)->Some_0;
    let a2 = spec_dec_arr::<32>(a1.1)->Some_0;
    lemma_arr_sound::<32>(a1.1);
    assert(s =~= spec_enc_u64(a0.0) + a0.1);
    lemma_app_assoc(spec_enc_u64(a0.0), spec_enc_u64(a1.0), a1.1);
    assert(s =~= (spec_enc_u64(a0.0) + spec_enc_u64(a1.0)) + a1.1);
    lemma_app_assoc((spec_enc_u64(a0.0) + spec_enc_u64(a1.0)), a2.0@, a2.1);
    assert(s =~= ((spec_enc_u64(a0.0) + spec_enc_u64(a1.0)) + a2.0@) + a2.1);
    assert(spec_enc_builder_tag(spec_dec_builder_tag(s)->Some_0.0) == ((spec_enc_u64(a0.0) + spec_enc_u64(a1.0)) + a2.0@));
}

/// A successful decode consumed exactly the canonical bytes of its
/// result, for an `OrderDetails` record.
#[verifier::rlimit(100)]
#[verifier::spinoff_prover]
pub proof fn lemma_order_details_sound(s: Seq<u8>)
    requires
        spec_dec_order_details(s) is Some,
    ensures
        ({
            let v = spec_dec_order_details(s)->Some_0;
            s == spec_enc_order_details(v.0) + v.1
        }),
{
    lemma_prim_sound();
    let a0 = spec_dec_u64(s)->Some_0;
    let a1 = spec_dec_order_side(a0.1)->Some_0;
    lemma_order_side_sound(a0.1);
    let a2 = spec_dec_u64(a1.1)->Some_0;
    let a3 = spec_dec_u64(a2.1)->Some_0;
    let a4 = spec_dec_order_price(a3.1)->Some_0;
    lemma_order_price_sound(a3.1);
    let a5 = spec_dec_originator(a4.1)->Some_0;
    lemma_originator_sound(a4.1);
    let a6 = spec_dec_trigger_condition(a5.1)->Some_0;
    lemma_trigger_condition_sound(a5.1);
    let a7 = spec_dec_trigger_entry_size(a6.1)->Some_0;
    lemma_trigger_entry_size_sound(a6.1);
    let a8 = spec_dec_trigger_condition(a7.1)->Some_0;
    lemma_trigger_condition_sound(a7.1);
    let a9 = spec_dec_trigger_condition(a8.1)->Some_0;
    lemma_trigger_condition_sound(a8.1);
    let a10 = spec_dec_trigger_condition(a9.1)->Some_0;
    lemma_trigger_condition_sound(a9.1);
    let a11 = spec_dec_tombstone(a10.1)->Some_0;
    lemma_tombstone_sound(a10.1);
    let a12 = spec_dec_event_history(a11.1)->Some_0;
    lemma_event_history_sound(a11.1);
    let a13 = spec_dec_builder_tag(a12.1)->Some_0;
    lemma_builder_tag_sound(a12.1);
    let a14 = spec_dec_arr::<64>(a13.1)->Some_0;
    lemma_arr_sound::<64>(a13.1);
    let a15 = spec_dec_arr::<32>(a14.1)->Some_0;
    lemma_arr_sound::<32>(a14.1);
    let a16 = spec_dec_arr::<24>(a15.1)->Some_0;
    lemma_arr_sound::<24>(a15.1);
    assert(s =~= spec_enc_u64(a0.0) + a0.1);
    lemma_app_assoc(spec_enc_u64(a0.0), spec_enc_order_side(a1.0), a1.1);
    assert(s =~= (spec_enc_u64(a0.0) + spec_enc_order_side(a1.0)) + a1.1);
    lemma_app_assoc((spec_enc_u64(a0.0) + spec_enc_order_side(a1.0)), spec_enc_u64(a2.0), a2.1);
    assert(s =~= ((spec_enc_u64(a0.0) + spec_enc_order_side(a1.0)) + spec_enc_u64(a2.0)) + a2.1);
    lemma_app_assoc(((spec_enc_u64(a0.0) + spec_enc_order_side(a1.0)) + spec_enc_u64(a2.0)), spec_enc_u64(a3.0), a3.1);
    assert(s =~= (((spec_enc_u64(a0.0) + spec_enc_order_side(a1.0)) + spec_enc_u64(a2.0)) + spec_enc_u64(a3.0)) + a3.1);
    lemma_app_assoc((((spec_enc_u64(a0.0) + spec_enc_order_side(a1.0)) + spec_enc_u64(a2.0)) + spec_enc_u64(a3.0)), spec_enc_order_price(a4.0), a4.1);
    assert(s =~= ((((spec_enc_u64(a0.0) + spec_enc_order_side(a1.0)) + spec_enc_u64(a2.0)) + spec_enc_u64(a3.0)) + spec_enc_order_price(a4.0)) + a4.1);
    lemma_app_assoc(((((spec_enc_u64(a0.0) + spec_enc_order_side(a1.0)) + spec_enc_u64(a2.0)) + spec_enc_u64(a3.0)) + spec_enc_order_price(a4.0)), spec_enc_originator(a5.0), a5.1);
    assert(s =~= (((((spec_enc_u64(a0.0) + spec_enc_order_side(a1.0)) + spec_enc_u64(a2.0)) + spec_enc_u64(a3.0)) + spec_enc_order_price(a4.0)) + spec_enc_originator(a5.0)) + a5.1);
    lemma_app_assoc((((((spec_enc_u64(a0.0) + spec_enc_order_side(a1.0)) + spec_enc_u64(a2.0)) + spec_enc_u64(a3.0)) + spec_enc_order_price(a4.0)) + spec_enc_originator(a5.0)), spec_enc_trigger_condition(a6.0), a6.1);
    assert(s =~= ((((((spec_enc_u64(a0.0) + spec_enc_order_side(a1.0)) + spec_enc_u64(a2.0)) + spec_enc_u64(a3.0)) + spec_enc_order_price(a4.0)) + spec_enc_originator(a5.0)) + spec_enc_trigger_condition(a6.0)) + a6.1);
    lemma_app_assoc(((((((spec_enc_u64(a0.0) + spec_enc_order_side(a1.0)) + spec_enc_u64(a2.0)) + spec_enc_u64(a3.0)) + spec_enc_order_price(a4.0)) + spec_enc_originator(a5.0)) + spec_enc_trigger_condition(a6.0)), spec_enc_trigger_entry_size(a7.0), a7.1);
    assert(s =~= (((((((spec_enc_u64(a0.0) + spec_enc_order_side(a1.0)) + spec_enc_u64(a2.0)) + spec_enc_u64(a3.0)) + spec_enc_order_price(a4.0)) + spec_enc_originator(a5.0)) + spec_enc_trigger_condition(a6.0)) + spec_enc_trigger_entry_size(a7.0)) + a7.1);
    lemma_app_assoc((((((((spec_enc_u64(a0.0) + spec_enc_order_side(a1.0)) + spec_enc_u64(a2.0)) + spec_enc_u64(a3.0)) + spec_enc_order_price(a4.0)) + spec_enc_originator(a5.0)) + spec_enc_trigger_condition(a6.0)) + spec_enc_trigger_entry_size(a7.0)), spec_enc_trigger_condition(a8.0), a8.1);
    assert(s =~= ((((((((spec_enc_u64(a0.0) + spec_enc_order_side(a1.0)) + spec_enc_u64(a2.0)) + spec_enc_u64(a3.0)) + spec_enc_order_price(a4.0)) + spec_enc_originator(a5.0)) + spec_enc_trigger_condition(a6.0)) + spec_enc_trigger_entry_size(a7.0)) + spec_enc_trigger_condition(a8.0)) + a8.1);
    lemma_app_assoc(((((((((spec_enc_u64(a0.0) + spec_enc_order_side(a1.0)) + spec_enc_u64(a2.0)) + spec_enc_u64(a3.0)) + spec_enc_order_price(a4.0)) + spec_enc_originator(a5.0)) + spec_enc_trigger_condition(a6.0)) + spec_enc_trigger_entry_size(a7.0)) + spec_enc_trigger_condition(a8.0)), spec_enc_trigger_condition(a9.0), a9.1);
    assert(s =~= (((((((((spec_enc_u64(a0.0) + spec_enc_order_side(a1.0)) + spec_enc_u64(a2.0)) + spec_enc_u64(a3.0)) + spec_enc_order_price(a4.0)) + spec_enc_originator(a5.0)) + spec_enc_trigger_condition(a6.0)) + spec_enc_trigger_entry_size(a7.0)) + spec_enc_trigger_condition(a8.0)) + spec_enc_trigger_condition(a9.0)) + a9.1);
    lemma_app_assoc((((((((((spec_enc_u64(a0.0) + spec_enc_order_side(a1.0)) + spec_enc_u64(a2.0)) + spec_enc_u64(a3.0)) + spec_enc_order_price(a4.0)) + spec_enc_originator(a5.0)) + spec_enc_trigger_condition(a6.0)) + spec_enc_trigger_entry_size(a7.0)) + spec_enc_trigger_condition(a8.0)) + spec_enc_trigger_condition(a9.0)), spec_enc_trigger_condition(a10.0), a10.1);
    assert(s =~= ((((((((((spec_enc_u64(a0.0) + spec_enc_order_side(a1.0)) + spec_enc_u64(a2.0)) + spec_enc_u64(a3.0)) + spec_enc_order_price(a4.0)) + spec_enc_originator(a5.0)) + spec_enc_trigger_condition(a6.0)) + spec_enc_trigger_entry_size(a7.0)) + spec_enc_trigger_condition(a8.0)) + spec_enc_trigger_condition(a9.0)) + spec_enc_trigger_condition(a10.0)) + a10.1);
    lemma_app_assoc(((((((((((spec_enc_u64(a0.0) + spec_enc_order_side(a1.0)) + spec_enc_u64(a2.0)) + spec_enc_u64(a3.0)) + spec_enc_order_price(a4.0)) + spec_enc_originator(a5.0)) + spec_enc_trigger_condition(a6.0)) + spec_enc_trigger_entry_size(a7.0)) + spec_enc_trigger_condition(a8.0)) + spec_enc_trigger_condition(a9.0)) + spec_enc_trigger_condition(a10.0)), spec_enc_tombstone(a11.0), a11.1);
    assert(s =~= (((((((((((spec_enc_u64(a0.0) + spec_enc_order_side(a1.0)) + spec_enc_u64(a2.0)) + spec_enc_u64(a3.0)) + spec_enc_order_price(a4.0)) + spec_enc_originator(a5.0)) + spec_enc_trigger_condition(a6.0)) + spec_enc_trigger_entry_size(a7.0)) + spec_enc_trigger_condition(a8.0)) + spec_enc_trigger_condition(a9.0)) + spec_enc_trigger_condition(a10.0)) + spec_enc_tombstone(a11.0)) + a11.1);
    lemma_app_assoc((((((((((((spec_enc_u64(a0.0) + spec_enc_order_side(a1.0)) + spec_enc_u64(a2.0)) + spec_enc_u64(a3.0)) + spec_enc_order_price(a4.0)) + spec_enc_originator(a5.0)) + spec_enc_trigger_condition(a6.0)) + spec_enc_trigger_entry_size(a7.0)) + spec_enc_trigger_condition(a8.0)) + spec_enc_trigger_condition(a9.0)) + spec_enc_trigger_condition(a10.0)) + spec_enc_tombstone(a11.0)), spec_enc_event_history(a12.0), a12.1);
    assert(s =~= ((((((((((((spec_enc_u64(a0.0) + spec_enc_order_side(a1.0)) + spec_enc_u64(a2.0)) + spec_enc_u64(a3.0)) + spec_enc_order_price(a4.0)) + spec_enc_originator(a5.0)) + spec_enc_trigger_condition(a6.0)) + spec_enc_trigger_entry_size(a7.0)) + spec_enc_trigger_condition(a8.0)) + spec_enc_trigger_condition(a9.0)) + spec_enc_trigger_condition(a10.0)) + spec_enc_tombstone(a11.0)) + spec_enc_event_history(a12.0)) + a12.1);
    lemma_app_assoc(((((((((((((spec_enc_u64(a0.0) + spec_enc_order_side(a1.0)) + spec_enc_u64(a2.0)) + spec_enc_u64(a3.0)) + spec_enc_order_price(a4.0)) + spec_enc_originator(a5.0)) + spec_enc_trigger_condition(a6.0)) + spec_enc_trigger_entry_size(a7.0)) + spec_enc_trigger_condition(a8.0)) + spec_enc_trigger_condition(a9.0)) + spec_enc_trigger_condition(a10.0)) + spec_enc_tombstone(a11.0)) + spec_enc_event_history(a12.0)), spec_enc_builder_tag(a13.0), a13.1);
    assert(s =~= (((((((((((((spec_enc_u64(a0.0) + spec_enc_order_side(a1.0)) + spec_enc_u64(a2.0)) + spec_enc_u64(a3.0)) + spec_enc_order_price(a4.0)) + spec_enc_originator(a5.0)) + spec_enc_trigger_condition(a6.0)) + spec_enc_trigger_entry_size(a7.0)) + spec_enc_trigger_condition(a8.0)) + spec_enc_trigger_condition(a9.0)) + spec_enc_trigger_condition(a10.0)) + spec_enc_tombstone(a11.0)) + spec_enc_event_history(a12.0)) + spec_enc_builder_tag(a13.0)) + a13.1);
    lemma_app_assoc((((((((((((((spec_enc_u64(a0.0) + spec_enc_order_side(a1.0)) + spec_enc_u64(a2.0)) + spec_enc_u64(a3.0)) + spec_enc_order_price(a4.0)) + spec_enc_originator(a5.0)) + spec_enc_trigger_condition(a6.0)) + spec_enc_trigger_entry_size(a7.0)) + spec_enc_trigger_condition(a8.0)) + spec_enc_trigger_condition(a9.0)) + spec_enc_trigger_condition(a10.0)) + spec_enc_tombstone(a11.0)) + spec_enc_event_history(a12.0)) + spec_enc_builder_tag(a13.0)), a14.0@, a14.1);
    assert(s =~= ((((((((((((((spec_enc_u64(a0.0) + spec_enc_order_side(a1.0)) + spec_enc_u64(a2.0)) + spec_enc_u64(a3.0)) + spec_enc_order_price(a4.0)) + spec_enc_originator(a5.0)) + spec_enc_trigger_condition(a6.0)) + spec_enc_trigger_entry_size(a7.0)) + spec_enc_trigger_condition(a8.0)) + spec_enc_trigger_condition(a9.0)) + spec_enc_trigger_condition(a10.0)) + spec_enc_tombstone(a11.0)) + spec_enc_event_history(a12.0)) + spec_enc_builder_tag(a13.0)) + a14.0@) + a14.1);
    lemma_app_assoc(((((((((((((((spec_enc_u64(a0.0) + spec_enc_order_side(a1.0)) + spec_enc_u64(a2.0)) + spec_enc_u64(a3.0)) + spec_enc_order_price(a4.0)) + spec_enc_originator(a5.0)) + spec_enc_trigger_condition(a6.0)) + spec_enc_trigger_entry_size(a7.0)) + spec_enc_trigger_condition(a8.0)) + spec_enc_trigger_condition(a9.0)) + spec_enc_trigger_condition(a10.0)) + spec_enc_tombstone(a11.0)) + spec_enc_event_history(a12.0)) + spec_enc_builder_tag(a13.0)) + a14.0@), a15.0@, a15.1);
    assert(s =~= (((((((((((((((spec_enc_u64(a0.0) + spec_enc_order_side(a1.0)) + spec_enc_u64(a2.0)) + spec_enc_u64(a3.0)) + spec_enc_order_price(a4.0)) + spec_enc_originator(a5.0)) + spec_enc_trigger_condition(a6.0)) + spec_enc_trigger_entry_size(a7.0)) + spec_enc_trigger_condition(a8.0)) + spec_enc_trigger_condition(a9.0)) + spec_enc_trigger_condition(a10.0)) + spec_enc_tombstone(a11.0)) + spec_enc_event_history(a12.0)) + spec_enc_builder_tag(a13.0)) + a14.0@) + a15.0@) + a15.1);
    lemma_app_assoc((((((((((((((((spec_enc_u64(a0.0) + spec_enc_order_side(a1.0)) + spec_enc_u64(a2.0)) + spec_enc_u64(a3.0)) + spec_enc_order_price(a4.0)) + spec_enc_originator(a5.0)) + spec_enc_trigger_condition(a6.0)) + spec_enc_trigger_entry_size(a7.0)) + spec_enc_trigger_condition(a8.0)) + spec_enc_trigger_condition(a9.0)) + spec_enc_trigger_condition(a10.0)) + spec_enc_tombstone(a11.0)) + spec_enc_event_history(a12.0)) + spec_enc_builder_tag(a13.0)) + a14.0@) + a15.0@), a16.0@, a16.1);
    assert(s =~= ((((((((((((((((spec_enc_u64(a0.0) + spec_enc_order_side(a1.0)) + spec_enc_u64(a2.0)) + spec_enc_u64(a3.0)) + spec_enc_order_price(a4.0)) + spec_enc_originator(a5.0)) + spec_enc_trigger_condition(a6.0)) + spec_enc_trigger_entry_size(a7.0)) + spec_enc_trigger_condition(a8.0)) + spec_enc_trigger_condition(a9.0)) + spec_enc_trigger_condition(a10.0)) + spec_enc_tombstone(a11.0)) + spec_enc_event_history(a12.0)) + spec_enc_builder_tag(a13.0)) + a14.0@) + a15.0@) + a16.0@) + a16.1);
    assert(spec_enc_order_details(spec_dec_order_details(s)->Some_0.0) == ((((((((((((((((spec_enc_u64(a0.0) + spec_enc_order_side(a1.0)) + spec_enc_u64(a2.0)) + spec_enc_u64(a3.0)) + spec_enc_order_price(a4.0)) + spec_enc_originator(a5.0)) + spec_enc_trigger_condition(a6.0)) + spec_enc_trigger_entry_size(a7.0)) + spec_enc_trigger_condition(a8.0)) + spec_enc_trigger_condition(a9.0)) + spec_enc_trigger_condition(a10.0)) + spec_enc_tombstone(a11.0)) + spec_enc_event_history(a12.0)) + spec_enc_builder_tag(a13.0)) + a14.0@) + a15.0@) + a16.0@));
}

/// A successful decode consumed exactly the canonical bytes of its
/// result, for an `OrderMarker`.
pub proof fn lemma_order_marker_sound(s: Seq<u8>)
    requires
        spec_dec_order_marker(s) is Some,
    ensures
        ({
            let v = spec_dec_order_marker(s)->Some_0;
            s == spec_enc_order_marker(v.0) + v.1
        }),
{
    lemma_prim_sound();
    let a0 = spec_dec_pubkey(s)->Some_0;
    let a1 = spec_dec_u64(a0.1)->Some_0;
    let a2 = spec_dec_u16(a1.1)->Some_0;
    let a3 = spec_dec_u32(a2.1)->Some_0;
    let a4 = spec_dec_arr::<2>(a3.1)->Some_0;
    lemma_arr_sound::<2>(a3.1);
    assert(s =~= spec_enc_pubkey(a0.0) + a0.1);
    lemma_app_assoc(spec_enc_pubkey(a0.0), spec_enc_u64(a1.0), a1.1);
    assert(s =~= (spec_enc_pubkey(a0.0) + spec_enc_u64(a1.0)) + a1.1);
    lemma_app_assoc((spec_enc_pubkey(a0.0) + spec_enc_u64(a1.0)), spec_enc_u16(a2.0), a2.1);
    assert(s =~= ((spec_enc_pubkey(a0.0) + spec_enc_u64(a1.0)) + spec_enc_u16(a2.0)) + a2.1);
    lemma_app_assoc(((spec_enc_pubkey(a0.0) + spec_enc_u64(a1.0)) + spec_enc_u16(a2.0)), spec_enc_u32(a3.0), a3.1);
    assert(s =~= (((spec_enc_pubkey(a0.0) + spec_enc_u64(a1.0)) + spec_enc_u16(a2.0)) + spec_enc_u32(a3.0)) + a3.1);
    lemma_app_assoc((((spec_enc_pubkey(a0.0) + spec_enc_u64(a1.0)) + spec_enc_u16(a2.0)) + spec_enc_u32(a3.0)), a4.0@, a4.1);
    assert(s =~= ((((spec_enc_pubkey(a0.0) + spec_enc_u64(a1.0)) + spec_enc_u16(a2.0)) + spec_enc_u32(a3.0)) + a4.0@) + a4.1);
    assert(spec_enc_order_marker(spec_dec_order_marker(s)->Some_0.0) == ((((spec_enc_pubkey(a0.0) + spec_enc_u64(a1.0)) + spec_enc_u16(a2.0)) + spec_enc_u32(a3.0)) + a4.0@));
}

/// The canonical encoded size of the widest `OrderDetails` record: every
/// tagged union at its largest variant.
pub fn max_order_details_borsh_size() -> (r: usize)
    ensures
        r == 427,
{
    let fat = OrderDetails {
        order_id: u64::MAX,
        side: OrderSide::Ask,
        qty: u64::MAX,
        filled_qty: u64::MAX,
        price: OrderPrice::PeggedOffset(i64::MAX, PegPriceReference::OraclePrice()),
        origin: OrderOriginator::VariantPlaceholder(0xffff_ffff_ffff_ffff_ffff_ffff_ffff_ffffu128),
        entry_cond: TriggerCondition::OrderPartialFill(u64::MAX, u16::MAX),
        entry_cond_size: TriggerEntrySize::FixedSize(u64::MAX),
        cancel_cond: TriggerCondition::OrderPartialFill(u64::MAX, u16::MAX),
        cancel_cond_2: TriggerCondition::OrderPartialFill(u64::MAX, u16::MAX),
        cancel_cond_3: TriggerCondition::OrderPartialFill(u64::MAX, u16::MAX),
        tombstone: OrderTombstone::Error(),
        event_history: Default::default(),
        builder_tag: Default::default(),
        _pad1: [0xffu8; 64],
        _pad2: [0xffu8; 32],
        _pad3: [0xffu8; 24],
    };
    let mut out: Vec<u8> = Vec::new();
    enc_order_details(&mut out, &fat);
    proof {
        lemma_prim_round_trip();
        broadcast use vstd::array::array_len_matches_n;

        assert(out@.len() == 427);
    }
    out.len()
}

} // verus!
