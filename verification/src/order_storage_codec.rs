//! Canonical byte encoding of the per-user order storage record.
//!
//! The storage serializes as its capacity and insert cursor (as 64-bit
//! words) followed by the record vector; the decoder is proved to invert
//! the encoder.

use vstd::prelude::*;

use crate::codec::dec_u32;
use crate::codec::dec_u64;
use crate::codec::enc_u32;
use crate::codec::enc_u64;
use crate::codec::lemma_prim_round_trip;
use crate::codec::spec_dec_u32;
use crate::codec::spec_dec_u64;
use crate::codec::spec_enc_u32;
use crate::codec::spec_enc_u64;
use crate::order::OrderDetails;
use crate::order_codec::dec_order_details;
use crate::order_codec::enc_order_details;
use crate::order_codec::lemma_app_assoc;
use crate::order_codec::lemma_order_details_round_trip;
use crate::order_codec::spec_dec_order_details;
use crate::order_codec::spec_enc_order_details;
use crate::order_detail_storage::OrderDetailStorage;

verus! {

/// The canonical bytes of a sequence of order records: each element in order.
pub open spec fn spec_enc_order_details_elems(s: Seq<OrderDetails>) -> Seq<u8>
    decreases s.len(),
{
    if s.len() == 0 {
        Seq::empty()
    } else {
        spec_enc_order_details(s[0]) + spec_enc_order_details_elems(s.drop_first())
    }
}

/// Decode `n` elements of order records.
pub open spec fn spec_dec_order_details_elems(s: Seq<u8>, n: int) -> Option<(Seq<OrderDetails>, Seq<u8>)>
    decreases n,
{
    if n <= 0 {
        Some((Seq::empty(), s))
    } else {
        match spec_dec_order_details(s) {
            Some(v) => match spec_dec_order_details_elems(v.1, n - 1) {
                Some(t) => Some((seq![v.0] + t.0, t.1)),
                None => None,
            },
            None => None,
        }
    }
}

/// Decoding inverts encoding for sequences of order records.
#[verifier::rlimit(100)]
#[verifier::spinoff_prover]
pub proof fn lemma_order_details_elems_round_trip(s: Seq<OrderDetails>, rest: Seq<u8>)
    ensures
        spec_dec_order_details_elems(spec_enc_order_details_elems(s) + rest, s.len() as int) == Some((s, rest)),
    decreases s.len(),
{
    lemma_prim_round_trip();
    if s.len() == 0 {
        assert(spec_enc_order_details_elems(s) + rest =~= rest);
    } else {
        let tail = spec_enc_order_details_elems(s.drop_first()) + rest;
        lemma_app_assoc(spec_enc_order_details(s[0]), spec_enc_order_details_elems(s.drop_first()), rest);
        assert(spec_enc_order_details_elems(s) + rest == spec_enc_order_details(s[0]) + tail);
        lemma_order_details_round_trip(s[0], tail);
        lemma_order_details_elems_round_trip(s.drop_first(), rest);
        assert(seq![s[0]] + s.drop_first() =~= s);
    }
}

/// The canonical bytes of a vector of order records: a four-byte count followed
/// by the elements.
pub open spec fn spec_enc_order_details_vec(s: Seq<OrderDetails>) -> Seq<u8> {
    spec_enc_u32(s.len() as u32) + spec_enc_order_details_elems(s)
}

/// Decode a vector of order records.
pub open spec fn spec_dec_order_details_vec(s: Seq<u8>) -> Option<(Seq<OrderDetails>, Seq<u8>)> {
    match spec_dec_u32(s) {
        Some(n) => spec_dec_order_details_elems(n.1, n.0 as int),
        None => None,
    }
}

/// Decoding inverts encoding for vectors of order records.
#[verifier::rlimit(100)]
#[verifier::spinoff_prover]
pub proof fn lemma_order_details_vec_round_trip(s: Seq<OrderDetails>, rest: Seq<u8>)
    requires
        s.len() <= u32::MAX,
    ensures
        spec_dec_order_details_vec(spec_enc_order_details_vec(s) + rest) == Some((s, rest)),
{
    lemma_prim_round_trip();
    let tail = spec_enc_order_details_elems(s) + rest;
    lemma_app_assoc(spec_enc_u32(s.len() as u32), spec_enc_order_details_elems(s), rest);
    assert(spec_enc_order_details_vec(s) + rest == spec_enc_u32(s.len() as u32) + tail);
    lemma_order_details_elems_round_trip(s, rest);
}

/// Append a vector of order records.
#[verifier::rlimit(100)]
#[verifier::spinoff_prover]
pub fn enc_order_details_vec(out: &mut Vec<u8>, s: &Vec<OrderDetails>)
    requires
        s@.len() <= u32::MAX,
    ensures
        final(out)@ == old(out)@ + spec_enc_order_details_vec(s@),
{
    enc_u32(out, s.len() as u32);
    let n = s.len();
    let mut i: usize = 0;
    proof {
        assert(spec_enc_order_details_elems(s@.take(0)) =~= Seq::<u8>::empty());
        assert(out@ =~= old(out)@ + spec_enc_u32(s@.len() as u32) + spec_enc_order_details_elems(
            s@.take(0),
        ));
    }
    while i < n
        invariant
            n == s@.len() <= u32::MAX,
            0 <= i <= n,
            out@ == old(out)@ + spec_enc_u32(s@.len() as u32) + spec_enc_order_details_elems(
                s@.take(i as int),
            ),
        decreases n - i,
    {
        enc_order_details(out, &s[i]);
        proof {
            lemma_order_details_elems_snoc(s@.take(i as int + 1));
            assert(s@.take(i as int + 1).drop_last() =~= s@.take(i as int));
            assert(s@.take(i as int + 1).last() == s@[i as int]);
            assert(out@ =~= old(out)@ + spec_enc_u32(s@.len() as u32) + spec_enc_order_details_elems(
                s@.take(i as int + 1),
            ));
        }
        i = i + 1;
    }
    proof {
        assert(s@.take(n as int) =~= s@);
        assert(final(out)@ =~= old(out)@ + spec_enc_order_details_vec(s@));
    }
}

/// A nonempty element sequence encodes as its prefix followed by its
/// last element.
#[verifier::rlimit(100)]
#[verifier::spinoff_prover]
proof fn lemma_order_details_elems_snoc(s: Seq<OrderDetails>)
    requires
        s.len() >= 1,
    ensures
        spec_enc_order_details_elems(s) == spec_enc_order_details_elems(s.drop_last()) + spec_enc_order_details(
            s.last(),
        ),
    decreases s.len(),
{
    if s.len() == 1 {
        assert(spec_enc_order_details_elems(s.drop_first()) =~= Seq::<u8>::empty());
        assert(spec_enc_order_details_elems(s.drop_last()) =~= Seq::<u8>::empty());
        assert(spec_enc_order_details(s[0]) + Seq::<u8>::empty() =~= spec_enc_order_details(s[0]));
    } else {
        lemma_order_details_elems_snoc(s.drop_first());
        assert(s.drop_first().drop_last() =~= s.drop_last().drop_first());
        assert(s.drop_first().last() == s.last());
        assert(s.drop_last()[0] == s[0]);
        lemma_app_assoc(
            spec_enc_order_details(s[0]),
            spec_enc_order_details_elems(s.drop_last().drop_first()),
            spec_enc_order_details(s.last()),
        );
    }
}

/// Read a vector of order records at `pos`.
#[verifier::rlimit(100)]
#[verifier::spinoff_prover]
pub fn dec_order_details_vec(buf: &Vec<u8>, pos: usize) -> (r: Option<(Vec<OrderDetails>, usize)>)
    requires
        pos <= buf@.len(),
    ensures
        match r {
            Some(v) => pos <= v.1 <= buf@.len() && spec_dec_order_details_vec(buf@.skip(pos as int))
                == Some((v.0@, buf@.skip(v.1 as int))),
            None => spec_dec_order_details_vec(buf@.skip(pos as int)) is None,
        },
{
    let n = match dec_u32(buf, pos) {
        Some(v) => v,
        None => { return None },
    };
    let count = n.0 as usize;
    let mut out: Vec<OrderDetails> = Vec::new();
    let mut cur: usize = n.1;
    let mut i: usize = 0;
    proof {
        if spec_dec_order_details_elems(buf@.skip(n.1 as int), count as int) is Some {
            let t = spec_dec_order_details_elems(buf@.skip(n.1 as int), count as int)->Some_0;
            assert(Seq::<OrderDetails>::empty() + t.0 =~= t.0);
            assert(out@ + t.0 =~= t.0);
        }
    }
    while i < count
        invariant
            0 <= i <= count,
            pos <= cur <= buf@.len(),
            out@.len() == i,
            count == n.0,
            spec_dec_u32(buf@.skip(pos as int)) == Some((n.0, buf@.skip(n.1 as int))),
            ({
                let whole = spec_dec_order_details_elems(buf@.skip(n.1 as int), count as int);
                match spec_dec_order_details_elems(buf@.skip(cur as int), count - i) {
                    Some(t) => whole == Some((out@ + t.0, t.1)),
                    None => whole is None,
                }
            }),
        decreases count - i,
    {
        let vopt = dec_order_details(buf, cur);
        if vopt.is_none() {
            proof {
                assert(spec_dec_order_details_elems(buf@.skip(cur as int), count - i) is None);
                assert(spec_dec_order_details_elems(buf@.skip(n.1 as int), count as int) is None);
                assert(spec_dec_order_details_vec(buf@.skip(pos as int)) is None);
            }
            return None;
        }
        let v = vopt.unwrap();
        proof {
            let whole = spec_dec_order_details_elems(buf@.skip(n.1 as int), count as int);
            let t1 = spec_dec_order_details_elems(buf@.skip(v.1 as int), count - i - 1);
            if t1 is Some {
                assert(out@ + (seq![v.0] + t1->Some_0.0) =~= (out@ + seq![v.0]) + t1->Some_0.0);
            }
        }
        out.push(v.0);
        cur = v.1;
        i = i + 1;
    }
    proof {
        assert(spec_dec_order_details_elems(buf@.skip(cur as int), 0) == Some(
            (Seq::<OrderDetails>::empty(), buf@.skip(cur as int)),
        ));
        assert(out@ + Seq::<OrderDetails>::empty() =~= out@);
    }
    Some((out, cur))
}

/// The canonical bytes of an `OrderDetailStorage` record: capacity and
/// insert cursor as 64-bit words, then the record vector.
pub open spec fn spec_enc_order_storage(x: OrderDetailStorage) -> Seq<u8> {
    spec_enc_u64(x.capacity as u64) + spec_enc_u64(x.total_inserted as u64)
        + spec_enc_order_details_vec(x.orders@)
}

/// Append an `OrderDetailStorage` record.
#[verifier::rlimit(100)]
#[verifier::spinoff_prover]
pub fn enc_order_storage(out: &mut Vec<u8>, x: &OrderDetailStorage)
    requires
        x.orders@.len() <= u32::MAX,
    ensures
        final(out)@ == old(out)@ + spec_enc_order_storage(*x),
{
    enc_u64(out, x.capacity as u64);
    enc_u64(out, x.total_inserted as u64);
    enc_order_details_vec(out, &x.orders);
    proof {
        assert(final(out)@ =~= old(out)@ + spec_enc_order_storage(*x));
    }
}

/// Decode an `OrderDetailStorage` record to its components.
pub open spec fn spec_dec_order_storage(s: Seq<u8>) -> Option<
    ((u64, u64, Seq<OrderDetails>), Seq<u8>),
> {
    match spec_dec_u64(s) {
        Some(a0) => match spec_dec_u64(a0.1) {
            Some(a1) => match spec_dec_order_details_vec(a1.1) {
                Some(a2) => Some(((a0.0, a1.0, a2.0), a2.1)),
                None => None,
            },
            None => None,
        },
        None => None,
    }
}

/// Decoding inverts encoding for `OrderDetailStorage` records.
#[verifier::rlimit(100)]
#[verifier::spinoff_prover]
pub proof fn lemma_order_storage_round_trip(x: OrderDetailStorage, rest: Seq<u8>)
    requires
        x.orders@.len() <= u32::MAX,
    ensures
        spec_dec_order_storage(spec_enc_order_storage(x) + rest) == Some(
            ((x.capacity as u64, x.total_inserted as u64, x.orders@), rest),
        ),
{
    lemma_prim_round_trip();
    let t1 = spec_enc_order_details_vec(x.orders@) + rest;
    let t0 = spec_enc_u64(x.total_inserted as u64) + t1;
    lemma_app_assoc(
        spec_enc_u64(x.capacity as u64) + spec_enc_u64(x.total_inserted as u64),
        spec_enc_order_details_vec(x.orders@),
        rest,
    );
    lemma_app_assoc(spec_enc_u64(x.capacity as u64), spec_enc_u64(x.total_inserted as u64), t1);
    assert(spec_enc_order_storage(x) + rest == spec_enc_u64(x.capacity as u64) + t0);
    lemma_order_details_vec_round_trip(x.orders@, rest);
}

/// Read an `OrderDetailStorage` record at `pos`.  The decoded capacity
/// and cursor must fit the machine word and describe the vector.
#[verifier::rlimit(100)]
#[verifier::spinoff_prover]
pub fn dec_order_storage(buf: &Vec<u8>, pos: usize) -> (r: Option<(OrderDetailStorage, usize)>)
    requires
        pos <= buf@.len(),
    ensures
        match r {
            Some(v) => pos <= v.1 <= buf@.len() && v.0.wf() && spec_dec_order_storage(
                buf@.skip(pos as int),
            ) == Some(
                ((v.0.capacity as u64, v.0.total_inserted as u64, v.0.orders@), buf@.skip(
                    v.1 as int,
                )),
            ),
            None => {
                let d = spec_dec_order_storage(buf@.skip(pos as int));
                d is Some ==> {
                    let c = d->Some_0.0;
                    c.0 > usize::MAX || c.1 > c.0 || c.0 != c.2.len()
                }
            },
        },
{
    let a0 = match dec_u64(buf, pos) {
        Some(v) => v,
        None => { return None },
    };
    let a1 = match dec_u64(buf, a0.1) {
        Some(v) => v,
        None => { return None },
    };
    let a2 = match dec_order_details_vec(buf, a1.1) {
        Some(v) => v,
        None => { return None },
    };
    if a0.0 > usize::MAX as u64 {
        return None;
    }
    let capacity = a0.0 as usize;
    if a1.0 > a0.0 {
        return None;
    }
    let total_inserted = a1.0 as usize;
    if a2.0.len() != capacity {
        return None;
    }
    Some((OrderDetailStorage { capacity, total_inserted, orders: a2.0 }, a2.1))
}

} // verus!
