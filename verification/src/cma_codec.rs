//! Canonical byte encoding of the account-level records: margin scopes,
//! balances, buckets, the nonce window, the global registry, and the
//! cross-margin account.
//!
//! Vectors encode as a four-byte little-endian count followed by the
//! elements in order.  Records holding vectors decode to their component
//! values; each decoder is proved to invert its encoder.

use vstd::prelude::*;

use crate::cma::CrossMarginAccountV1;
use crate::cma::MarginBucket;
use crate::cma::MarginScope;
use crate::cma::TokenBalance;
use crate::codec::dec_i64;
use crate::codec::dec_pubkey;
use crate::codec::dec_u16;
use crate::codec::dec_u32;
use crate::codec::dec_u64;
use crate::codec::dec_u8;
use crate::codec::enc_i64;
use crate::codec::enc_pubkey;
use crate::codec::enc_u16;
use crate::codec::enc_u32;
use crate::codec::enc_u64;
use crate::codec::enc_u8;
use crate::codec::lemma_prim_round_trip;
use crate::codec::spec_dec_i64;
use crate::codec::spec_dec_pubkey;
use crate::codec::spec_dec_u16;
use crate::codec::spec_dec_u32;
use crate::codec::spec_dec_u64;
use crate::codec::spec_dec_u8;
use crate::codec::spec_enc_i64;
use crate::codec::spec_enc_pubkey;
use crate::codec::spec_enc_u16;
use crate::codec::spec_enc_u32;
use crate::codec::spec_enc_u64;
use crate::codec::spec_enc_u8;
use crate::global::GlobalStateV1;
use crate::keys::Pubkey;
use crate::order_codec::dec_bytes_n;
use crate::order_codec::enc_bytes_n;
use crate::order_codec::lemma_app_assoc;
use crate::order_codec::lemma_arr_round_trip;
use crate::order_codec::spec_dec_arr;
use crate::permit::NonceWindowState;

verus! {

/// The canonical bytes of a `MarginScope`.
pub open spec fn spec_enc_margin_scope(x: MarginScope) -> Seq<u8> {
    match x {
        MarginScope::MarketIsolated(a0) => spec_enc_u8(0) + spec_enc_u64(a0),
    }
}

/// Decode a `MarginScope`.
pub open spec fn spec_dec_margin_scope(s: Seq<u8>) -> Option<(MarginScope, Seq<u8>)> {
    match spec_dec_u8(s) {
        Some(t) =>
        if t.0 == 0 {
            match spec_dec_u64(t.1) {
            Some(a0) => Some((MarginScope::MarketIsolated(a0.0), a0.1)),
            None => None,
        }
        }
        else {
            None
        },
        None => None,
    }
}

/// Decoding inverts encoding for a `MarginScope`.
pub proof fn lemma_margin_scope_round_trip(x: MarginScope, rest: Seq<u8>)
    ensures
        spec_dec_margin_scope(spec_enc_margin_scope(x) + rest) == Some((x, rest)),
{
    lemma_prim_round_trip();
    match x {
        MarginScope::MarketIsolated(a0) => {
            let t0 = spec_enc_u64(a0) + rest;
            assert(spec_enc_margin_scope(x) + rest =~= spec_enc_u8(0) + t0);
        },
    }
}

/// Append a `MarginScope`.
pub fn enc_margin_scope(out: &mut Vec<u8>, x: &MarginScope)
    ensures
        final(out)@ == old(out)@ + spec_enc_margin_scope(*x),
{
    match x {
        MarginScope::MarketIsolated(a0) => {
            enc_u8(out, 0);
            enc_u64(out, *a0);
        },
    }
    proof {
        assert(final(out)@ =~= old(out)@ + spec_enc_margin_scope(*x));
    }
}

/// Read a `MarginScope` at `pos`.
pub fn dec_margin_scope(buf: &Vec<u8>, pos: usize) -> (r: Option<(MarginScope, usize)>)
    requires
        pos <= buf@.len(),
    ensures
        match r {
            Some(v) => pos <= v.1 <= buf@.len() && spec_dec_margin_scope(buf@.skip(pos as int)) == Some(
                (v.0, buf@.skip(v.1 as int)),
            ),
            None => spec_dec_margin_scope(buf@.skip(pos as int)) is None,
        },
{
    let t = match dec_u8(buf, pos) {
        Some(v) => v,
        None => { return None },
    };
        if t.0 == 0 {
            let a0 = match dec_u64(buf, t.1) {
                Some(v) => v,
                None => { return None },
            };
            Some((MarginScope::MarketIsolated(a0.0), a0.1))
        }
    else {
        None
    }
}

/// The canonical bytes of a `TokenBalance`.
pub open spec fn spec_enc_token_balance(x: TokenBalance) -> Seq<u8> {
    spec_enc_pubkey(x.mint) + spec_enc_u64(x.amount) + x._pad@
}

/// Decode a `TokenBalance`.
pub open spec fn spec_dec_token_balance(s: Seq<u8>) -> Option<(TokenBalance, Seq<u8>)> {
    match spec_dec_pubkey(s) {
            Some(a0) => match spec_dec_u64(a0.1) {
            Some(a1) => match spec_dec_arr::<16>(a1.1) {
            Some(a2) => Some(((TokenBalance { mint: a0.0, amount: a1.0, _pad: a2.0 }), a2.1)),
            None => None,
        },
            None => None,
        },
            None => None,
        }
}

/// Decoding inverts encoding for a `TokenBalance`.
pub proof fn lemma_token_balance_round_trip(x: TokenBalance, rest: Seq<u8>)
    ensures
        spec_dec_token_balance(spec_enc_token_balance(x) + rest) == Some((x, rest)),
{
    lemma_prim_round_trip();
    let t2 = x._pad@ + rest;
    let t1 = spec_enc_u64(x.amount) + t2;
    let t0 = spec_enc_pubkey(x.mint) + t1;
    assert(spec_enc_token_balance(x) + rest =~= t0);
    lemma_arr_round_trip::<16>(x._pad, rest);
}

/// Append a `TokenBalance`.
pub fn enc_token_balance(out: &mut Vec<u8>, x: &TokenBalance)
    ensures
        final(out)@ == old(out)@ + spec_enc_token_balance(*x),
{
    enc_pubkey(out, &x.mint);
    enc_u64(out, x.amount);
    enc_bytes_n(out, &x._pad);
    proof {
        assert(final(out)@ =~= old(out)@ + spec_enc_token_balance(*x));
    }
}

/// Read a `TokenBalance` at `pos`.
pub fn dec_token_balance(buf: &Vec<u8>, pos: usize) -> (r: Option<(TokenBalance, usize)>)
    requires
        pos <= buf@.len(),
    ensures
        match r {
            Some(v) => pos <= v.1 <= buf@.len() && spec_dec_token_balance(buf@.skip(pos as int)) == Some(
                (v.0, buf@.skip(v.1 as int)),
            ),
            None => spec_dec_token_balance(buf@.skip(pos as int)) is None,
        },
{
    let a0 = match dec_pubkey(buf, pos) {
        Some(v) => v,
        None => { return None },
    };
    let a1 = match dec_u64(buf, a0.1) {
        Some(v) => v,
        None => { return None },
    };
    let a2 = match dec_bytes_n::<16>(buf, a1.1) {
        Some(v) => v,
        None => { return None },
    };
    Some((TokenBalance { mint: a0.0, amount: a1.0, _pad: a2.0 }, a2.1))
}

/// The canonical bytes of a `MarginBucket`.
pub open spec fn spec_enc_margin_bucket(x: MarginBucket) -> Seq<u8> {
    spec_enc_margin_scope(x.scope) + spec_enc_pubkey(x.mint) + spec_enc_u64(x.committed) + spec_enc_i64(x.net_position) + spec_enc_u64(x.open_bid_qty) + spec_enc_u64(x.open_ask_qty) + spec_enc_u64(x.avg_entry_price) + spec_enc_u16(x.user_set_im_bps) + x._pad@
}

/// Decode a `MarginBucket`.
pub open spec fn spec_dec_margin_bucket(s: Seq<u8>) -> Option<(MarginBucket, Seq<u8>)> {
    match spec_dec_margin_scope(s) {
            Some(a0) => match spec_dec_pubkey(a0.1) {
            Some(a1) => match spec_dec_u64(a1.1) {
            Some(a2) => match spec_dec_i64(a2.1) {
            Some(a3) => match spec_dec_u64(a3.1) {
            Some(a4) => match spec_dec_u64(a4.1) {
            Some(a5) => match spec_dec_u64(a5.1) {
            Some(a6) => match spec_dec_u16(a6.1) {
            Some(a7) => match spec_dec_arr::<32>(a7.1) {
            Some(a8) => Some(((MarginBucket { scope: a0.0, mint: a1.0, committed: a2.0, net_position: a3.0, open_bid_qty: a4.0, open_ask_qty: a5.0, avg_entry_price: a6.0, user_set_im_bps: a7.0, _pad: a8.0 }), a8.1)),
            None => None,
        },
            None => None,
        },
            None => None,
        },
            None => None,
        },
            None => None,
        },
            None => None,
        },
            None => None,
        },
            None => None,
        },
            None => None,
        }
}

/// Decoding inverts encoding for a `MarginBucket`.
pub proof fn lemma_margin_bucket_round_trip(x: MarginBucket, rest: Seq<u8>)
    ensures
        spec_dec_margin_bucket(spec_enc_margin_bucket(x) + rest) == Some((x, rest)),
{
    lemma_prim_round_trip();
    let t8 = x._pad@ + rest;
    let t7 = spec_enc_u16(x.user_set_im_bps) + t8;
    let t6 = spec_enc_u64(x.avg_entry_price) + t7;
    let t5 = spec_enc_u64(x.open_ask_qty) + t6;
    let t4 = spec_enc_u64(x.open_bid_qty) + t5;
    let t3 = spec_enc_i64(x.net_position) + t4;
    let t2 = spec_enc_u64(x.committed) + t3;
    let t1 = spec_enc_pubkey(x.mint) + t2;
    let t0 = spec_enc_margin_scope(x.scope) + t1;
    assert(spec_enc_margin_bucket(x) + rest =~= t0);
    lemma_margin_scope_round_trip(x.scope, t1);
    lemma_arr_round_trip::<32>(x._pad, rest);
}

/// Append a `MarginBucket`.
pub fn enc_margin_bucket(out: &mut Vec<u8>, x: &MarginBucket)
    ensures
        final(out)@ == old(out)@ + spec_enc_margin_bucket(*x),
{
    enc_margin_scope(out, &x.scope);
    enc_pubkey(out, &x.mint);
    enc_u64(out, x.committed);
    enc_i64(out, x.net_position);
    enc_u64(out, x.open_bid_qty);
    enc_u64(out, x.open_ask_qty);
    enc_u64(out, x.avg_entry_price);
    enc_u16(out, x.user_set_im_bps);
    enc_bytes_n(out, &x._pad);
    proof {
        assert(final(out)@ =~= old(out)@ + spec_enc_margin_bucket(*x));
    }
}

/// Read a `MarginBucket` at `pos`.
pub fn dec_margin_bucket(buf: &Vec<u8>, pos: usize) -> (r: Option<(MarginBucket, usize)>)
    requires
        pos <= buf@.len(),
    ensures
        match r {
            Some(v) => pos <= v.1 <= buf@.len() && spec_dec_margin_bucket(buf@.skip(pos as int)) == Some(
                (v.0, buf@.skip(v.1 as int)),
            ),
            None => spec_dec_margin_bucket(buf@.skip(pos as int)) is None,
        },
{
    let a0 = match dec_margin_scope(buf, pos) {
        Some(v) => v,
        None => { return None },
    };
    let a1 = match dec_pubkey(buf, a0.1) {
        Some(v) => v,
        None => { return None },
    };
    let a2 = match dec_u64(buf, a1.1) {
        Some(v) => v,
        None => { return None },
    };
    let a3 = match dec_i64(buf, a2.1) {
        Some(v) => v,
        None => { return None },
    };
    let a4 = match dec_u64(buf, a3.1) {
        Some(v) => v,
        None => { return None },
    };
    let a5 = match dec_u64(buf, a4.1) {
        Some(v) => v,
        None => { return None },
    };
    let a6 = match dec_u64(buf, a5.1) {
        Some(v) => v,
        None => { return None },
    };
    let a7 = match dec_u16(buf, a6.1) {
        Some(v) => v,
        None => { return None },
    };
    let a8 = match dec_bytes_n::<32>(buf, a7.1) {
        Some(v) => v,
        None => { return None },
    };
    Some((MarginBucket { scope: a0.0, mint: a1.0, committed: a2.0, net_position: a3.0, open_bid_qty: a4.0, open_ask_qty: a5.0, avg_entry_price: a6.0, user_set_im_bps: a7.0, _pad: a8.0 }, a8.1))
}
/// The canonical bytes of a sequence of nonces: each element in order.
pub open spec fn spec_enc_u64_elems(s: Seq<u64>) -> Seq<u8>
    decreases s.len(),
{
    if s.len() == 0 {
        Seq::empty()
    } else {
        spec_enc_u64(s[0]) + spec_enc_u64_elems(s.drop_first())
    }
}

/// Decode `n` elements of nonces.
pub open spec fn spec_dec_u64_elems(s: Seq<u8>, n: int) -> Option<(Seq<u64>, Seq<u8>)>
    decreases n,
{
    if n <= 0 {
        Some((Seq::empty(), s))
    } else {
        match spec_dec_u64(s) {
            Some(v) => match spec_dec_u64_elems(v.1, n - 1) {
                Some(t) => Some((seq![v.0] + t.0, t.1)),
                None => None,
            },
            None => None,
        }
    }
}

/// Decoding inverts encoding for sequences of nonces.
pub proof fn lemma_u64_elems_round_trip(s: Seq<u64>, rest: Seq<u8>)
    ensures
        spec_dec_u64_elems(spec_enc_u64_elems(s) + rest, s.len() as int) == Some((s, rest)),
    decreases s.len(),
{
    lemma_prim_round_trip();
    if s.len() == 0 {
        assert(spec_enc_u64_elems(s) + rest =~= rest);
    } else {
        let tail = spec_enc_u64_elems(s.drop_first()) + rest;
        lemma_app_assoc(spec_enc_u64(s[0]), spec_enc_u64_elems(s.drop_first()), rest);
        assert(spec_enc_u64_elems(s) + rest == spec_enc_u64(s[0]) + tail);
        assert(spec_dec_u64(spec_enc_u64(s[0]) + tail) == Some((s[0], tail)));
        lemma_u64_elems_round_trip(s.drop_first(), rest);
        assert(seq![s[0]] + s.drop_first() =~= s);
    }
}

/// The canonical bytes of a vector of nonces: a four-byte count followed
/// by the elements.
pub open spec fn spec_enc_u64_vec(s: Seq<u64>) -> Seq<u8> {
    spec_enc_u32(s.len() as u32) + spec_enc_u64_elems(s)
}

/// Decode a vector of nonces.
pub open spec fn spec_dec_u64_vec(s: Seq<u8>) -> Option<(Seq<u64>, Seq<u8>)> {
    match spec_dec_u32(s) {
        Some(n) => spec_dec_u64_elems(n.1, n.0 as int),
        None => None,
    }
}

/// Decoding inverts encoding for vectors of nonces.
pub proof fn lemma_u64_vec_round_trip(s: Seq<u64>, rest: Seq<u8>)
    requires
        s.len() <= u32::MAX,
    ensures
        spec_dec_u64_vec(spec_enc_u64_vec(s) + rest) == Some((s, rest)),
{
    lemma_prim_round_trip();
    let tail = spec_enc_u64_elems(s) + rest;
    lemma_app_assoc(spec_enc_u32(s.len() as u32), spec_enc_u64_elems(s), rest);
    assert(spec_enc_u64_vec(s) + rest == spec_enc_u32(s.len() as u32) + tail);
    lemma_u64_elems_round_trip(s, rest);
}

/// Append a vector of nonces.
pub fn enc_u64_vec(out: &mut Vec<u8>, s: &Vec<u64>)
    requires
        s@.len() <= u32::MAX,
    ensures
        final(out)@ == old(out)@ + spec_enc_u64_vec(s@),
{
    enc_u32(out, s.len() as u32);
    let n = s.len();
    let mut i: usize = 0;
    proof {
        assert(spec_enc_u64_elems(s@.take(0)) =~= Seq::<u8>::empty());
        assert(out@ =~= old(out)@ + spec_enc_u32(s@.len() as u32) + spec_enc_u64_elems(
            s@.take(0),
        ));
    }
    while i < n
        invariant
            n == s@.len() <= u32::MAX,
            0 <= i <= n,
            out@ == old(out)@ + spec_enc_u32(s@.len() as u32) + spec_enc_u64_elems(
                s@.take(i as int),
            ),
        decreases n - i,
    {
        enc_u64(out, s[i]);
        proof {
            lemma_u64_elems_snoc(s@.take(i as int + 1));
            assert(s@.take(i as int + 1).drop_last() =~= s@.take(i as int));
            assert(s@.take(i as int + 1).last() == s@[i as int]);
            assert(out@ =~= old(out)@ + spec_enc_u32(s@.len() as u32) + spec_enc_u64_elems(
                s@.take(i as int + 1),
            ));
        }
        i = i + 1;
    }
    proof {
        assert(s@.take(n as int) =~= s@);
        assert(final(out)@ =~= old(out)@ + spec_enc_u64_vec(s@));
    }
}

/// A nonempty element sequence encodes as its prefix followed by its
/// last element.
proof fn lemma_u64_elems_snoc(s: Seq<u64>)
    requires
        s.len() >= 1,
    ensures
        spec_enc_u64_elems(s) == spec_enc_u64_elems(s.drop_last()) + spec_enc_u64(
            s.last(),
        ),
    decreases s.len(),
{
    if s.len() == 1 {
        assert(spec_enc_u64_elems(s.drop_first()) =~= Seq::<u8>::empty());
        assert(spec_enc_u64_elems(s.drop_last()) =~= Seq::<u8>::empty());
        assert(spec_enc_u64(s[0]) + Seq::<u8>::empty() =~= spec_enc_u64(s[0]));
    } else {
        lemma_u64_elems_snoc(s.drop_first());
        assert(s.drop_first().drop_last() =~= s.drop_last().drop_first());
        assert(s.drop_first().last() == s.last());
        assert(s.drop_last()[0] == s[0]);
        lemma_app_assoc(
            spec_enc_u64(s[0]),
            spec_enc_u64_elems(s.drop_last().drop_first()),
            spec_enc_u64(s.last()),
        );
    }
}

/// Read a vector of nonces at `pos`.
pub fn dec_u64_vec(buf: &Vec<u8>, pos: usize) -> (r: Option<(Vec<u64>, usize)>)
    requires
        pos <= buf@.len(),
    ensures
        match r {
            Some(v) => pos <= v.1 <= buf@.len() && spec_dec_u64_vec(buf@.skip(pos as int))
                == Some((v.0@, buf@.skip(v.1 as int))),
            None => spec_dec_u64_vec(buf@.skip(pos as int)) is None,
        },
{
    let n = match dec_u32(buf, pos) {
        Some(v) => v,
        None => { return None },
    };
    let count = n.0 as usize;
    let mut out: Vec<u64> = Vec::new();
    let mut cur: usize = n.1;
    let mut i: usize = 0;
    proof {
        if spec_dec_u64_elems(buf@.skip(n.1 as int), count as int) is Some {
            let t = spec_dec_u64_elems(buf@.skip(n.1 as int), count as int)->Some_0;
            assert(Seq::<u64>::empty() + t.0 =~= t.0);
            assert(out@ + t.0 =~= t.0);
        }
    }
    while i < count
        invariant
            0 <= i <= count,
            pos <= cur <= buf@.len(),
            out@.len() == i,
            count == n.0,
            spec_dec_u32(buf@.skip(pos as int)) == Some((n.0, buf@.skip(n.1 as int))),
            ({
                let whole = spec_dec_u64_elems(buf@.skip(n.1 as int), count as int);
                match spec_dec_u64_elems(buf@.skip(cur as int), count - i) {
                    Some(t) => whole == Some((out@ + t.0, t.1)),
                    None => whole is None,
                }
            }),
        decreases count - i,
    {
        let vopt = dec_u64(buf, cur);
        if vopt.is_none() {
            proof {
                assert(spec_dec_u64_elems(buf@.skip(cur as int), count - i) is None);
                assert(spec_dec_u64_elems(buf@.skip(n.1 as int), count as int) is None);
                assert(spec_dec_u64_vec(buf@.skip(pos as int)) is None);
            }
            return None;
        }
        let v = vopt.unwrap();
        proof {
            let whole = spec_dec_u64_elems(buf@.skip(n.1 as int), count as int);
            let t1 = spec_dec_u64_elems(buf@.skip(v.1 as int), count - i - 1);
            if t1 is Some {
                assert(out@ + (seq![v.0] + t1->Some_0.0) =~= (out@ + seq![v.0]) + t1->Some_0.0);
            }
        }
        out.push(v.0);
        cur = v.1;
        i = i + 1;
    }
    proof {
        assert(spec_dec_u64_elems(buf@.skip(cur as int), 0) == Some(
            (Seq::<u64>::empty(), buf@.skip(cur as int)),
        ));
        assert(out@ + Seq::<u64>::empty() =~= out@);
    }
    Some((out, cur))
}

/// The canonical bytes of a sequence of keys: each element in order.
pub open spec fn spec_enc_pubkey_elems(s: Seq<Pubkey>) -> Seq<u8>
    decreases s.len(),
{
    if s.len() == 0 {
        Seq::empty()
    } else {
        spec_enc_pubkey(s[0]) + spec_enc_pubkey_elems(s.drop_first())
    }
}

/// Decode `n` elements of keys.
pub open spec fn spec_dec_pubkey_elems(s: Seq<u8>, n: int) -> Option<(Seq<Pubkey>, Seq<u8>)>
    decreases n,
{
    if n <= 0 {
        Some((Seq::empty(), s))
    } else {
        match spec_dec_pubkey(s) {
            Some(v) => match spec_dec_pubkey_elems(v.1, n - 1) {
                Some(t) => Some((seq![v.0] + t.0, t.1)),
                None => None,
            },
            None => None,
        }
    }
}

/// Decoding inverts encoding for sequences of keys.
pub proof fn lemma_pubkey_elems_round_trip(s: Seq<Pubkey>, rest: Seq<u8>)
    ensures
        spec_dec_pubkey_elems(spec_enc_pubkey_elems(s) + rest, s.len() as int) == Some((s, rest)),
    decreases s.len(),
{
    lemma_prim_round_trip();
    if s.len() == 0 {
        assert(spec_enc_pubkey_elems(s) + rest =~= rest);
    } else {
        let tail = spec_enc_pubkey_elems(s.drop_first()) + rest;
        lemma_app_assoc(spec_enc_pubkey(s[0]), spec_enc_pubkey_elems(s.drop_first()), rest);
        assert(spec_enc_pubkey_elems(s) + rest == spec_enc_pubkey(s[0]) + tail);
        assert(spec_dec_pubkey(spec_enc_pubkey(s[0]) + tail) == Some((s[0], tail)));
        lemma_pubkey_elems_round_trip(s.drop_first(), rest);
        assert(seq![s[0]] + s.drop_first() =~= s);
    }
}

/// The canonical bytes of a vector of keys: a four-byte count followed
/// by the elements.
pub open spec fn spec_enc_pubkey_vec(s: Seq<Pubkey>) -> Seq<u8> {
    spec_enc_u32(s.len() as u32) + spec_enc_pubkey_elems(s)
}

/// Decode a vector of keys.
pub open spec fn spec_dec_pubkey_vec(s: Seq<u8>) -> Option<(Seq<Pubkey>, Seq<u8>)> {
    match spec_dec_u32(s) {
        Some(n) => spec_dec_pubkey_elems(n.1, n.0 as int),
        None => None,
    }
}

/// Decoding inverts encoding for vectors of keys.
pub proof fn lemma_pubkey_vec_round_trip(s: Seq<Pubkey>, rest: Seq<u8>)
    requires
        s.len() <= u32::MAX,
    ensures
        spec_dec_pubkey_vec(spec_enc_pubkey_vec(s) + rest) == Some((s, rest)),
{
    lemma_prim_round_trip();
    let tail = spec_enc_pubkey_elems(s) + rest;
    lemma_app_assoc(spec_enc_u32(s.len() as u32), spec_enc_pubkey_elems(s), rest);
    assert(spec_enc_pubkey_vec(s) + rest == spec_enc_u32(s.len() as u32) + tail);
    lemma_pubkey_elems_round_trip(s, rest);
}

/// Append a vector of keys.
pub fn enc_pubkey_vec(out: &mut Vec<u8>, s: &Vec<Pubkey>)
    requires
        s@.len() <= u32::MAX,
    ensures
        final(out)@ == old(out)@ + spec_enc_pubkey_vec(s@),
{
    enc_u32(out, s.len() as u32);
    let n = s.len();
    let mut i: usize = 0;
    proof {
        assert(spec_enc_pubkey_elems(s@.take(0)) =~= Seq::<u8>::empty());
        assert(out@ =~= old(out)@ + spec_enc_u32(s@.len() as u32) + spec_enc_pubkey_elems(
            s@.take(0),
        ));
    }
    while i < n
        invariant
            n == s@.len() <= u32::MAX,
            0 <= i <= n,
            out@ == old(out)@ + spec_enc_u32(s@.len() as u32) + spec_enc_pubkey_elems(
                s@.take(i as int),
            ),
        decreases n - i,
    {
        enc_pubkey(out, &s[i]);
        proof {
            lemma_pubkey_elems_snoc(s@.take(i as int + 1));
            assert(s@.take(i as int + 1).drop_last() =~= s@.take(i as int));
            assert(s@.take(i as int + 1).last() == s@[i as int]);
            assert(out@ =~= old(out)@ + spec_enc_u32(s@.len() as u32) + spec_enc_pubkey_elems(
                s@.take(i as int + 1),
            ));
        }
        i = i + 1;
    }
    proof {
        assert(s@.take(n as int) =~= s@);
        assert(final(out)@ =~= old(out)@ + spec_enc_pubkey_vec(s@));
    }
}

/// A nonempty element sequence encodes as its prefix followed by its
/// last element.
proof fn lemma_pubkey_elems_snoc(s: Seq<Pubkey>)
    requires
        s.len() >= 1,
    ensures
        spec_enc_pubkey_elems(s) == spec_enc_pubkey_elems(s.drop_last()) + spec_enc_pubkey(
            s.last(),
        ),
    decreases s.len(),
{
    if s.len() == 1 {
        assert(spec_enc_pubkey_elems(s.drop_first()) =~= Seq::<u8>::empty());
        assert(spec_enc_pubkey_elems(s.drop_last()) =~= Seq::<u8>::empty());
        assert(spec_enc_pubkey(s[0]) + Seq::<u8>::empty() =~= spec_enc_pubkey(s[0]));
    } else {
        lemma_pubkey_elems_snoc(s.drop_first());
        assert(s.drop_first().drop_last() =~= s.drop_last().drop_first());
        assert(s.drop_first().last() == s.last());
        assert(s.drop_last()[0] == s[0]);
        lemma_app_assoc(
            spec_enc_pubkey(s[0]),
            spec_enc_pubkey_elems(s.drop_last().drop_first()),
            spec_enc_pubkey(s.last()),
        );
    }
}

/// Read a vector of keys at `pos`.
pub fn dec_pubkey_vec(buf: &Vec<u8>, pos: usize) -> (r: Option<(Vec<Pubkey>, usize)>)
    requires
        pos <= buf@.len(),
    ensures
        match r {
            Some(v) => pos <= v.1 <= buf@.len() && spec_dec_pubkey_vec(buf@.skip(pos as int))
                == Some((v.0@, buf@.skip(v.1 as int))),
            None => spec_dec_pubkey_vec(buf@.skip(pos as int)) is None,
        },
{
    let n = match dec_u32(buf, pos) {
        Some(v) => v,
        None => { return None },
    };
    let count = n.0 as usize;
    let mut out: Vec<Pubkey> = Vec::new();
    let mut cur: usize = n.1;
    let mut i: usize = 0;
    proof {
        if spec_dec_pubkey_elems(buf@.skip(n.1 as int), count as int) is Some {
            let t = spec_dec_pubkey_elems(buf@.skip(n.1 as int), count as int)->Some_0;
            assert(Seq::<Pubkey>::empty() + t.0 =~= t.0);
            assert(out@ + t.0 =~= t.0);
        }
    }
    while i < count
        invariant
            0 <= i <= count,
            pos <= cur <= buf@.len(),
            out@.len() == i,
            count == n.0,
            spec_dec_u32(buf@.skip(pos as int)) == Some((n.0, buf@.skip(n.1 as int))),
            ({
                let whole = spec_dec_pubkey_elems(buf@.skip(n.1 as int), count as int);
                match spec_dec_pubkey_elems(buf@.skip(cur as int), count - i) {
                    Some(t) => whole == Some((out@ + t.0, t.1)),
                    None => whole is None,
                }
            }),
        decreases count - i,
    {
        let vopt = dec_pubkey(buf, cur);
        if vopt.is_none() {
            proof {
                assert(spec_dec_pubkey_elems(buf@.skip(cur as int), count - i) is None);
                assert(spec_dec_pubkey_elems(buf@.skip(n.1 as int), count as int) is None);
                assert(spec_dec_pubkey_vec(buf@.skip(pos as int)) is None);
            }
            return None;
        }
        let v = vopt.unwrap();
        proof {
            let whole = spec_dec_pubkey_elems(buf@.skip(n.1 as int), count as int);
            let t1 = spec_dec_pubkey_elems(buf@.skip(v.1 as int), count - i - 1);
            if t1 is Some {
                assert(out@ + (seq![v.0] + t1->Some_0.0) =~= (out@ + seq![v.0]) + t1->Some_0.0);
            }
        }
        out.push(v.0);
        cur = v.1;
        i = i + 1;
    }
    proof {
        assert(spec_dec_pubkey_elems(buf@.skip(cur as int), 0) == Some(
            (Seq::<Pubkey>::empty(), buf@.skip(cur as int)),
        ));
        assert(out@ + Seq::<Pubkey>::empty() =~= out@);
    }
    Some((out, cur))
}

/// The canonical bytes of a sequence of balances: each element in order.
pub open spec fn spec_enc_token_balance_elems(s: Seq<TokenBalance>) -> Seq<u8>
    decreases s.len(),
{
    if s.len() == 0 {
        Seq::empty()
    } else {
        spec_enc_token_balance(s[0]) + spec_enc_token_balance_elems(s.drop_first())
    }
}

/// Decode `n` elements of balances.
pub open spec fn spec_dec_token_balance_elems(s: Seq<u8>, n: int) -> Option<(Seq<TokenBalance>, Seq<u8>)>
    decreases n,
{
    if n <= 0 {
        Some((Seq::empty(), s))
    } else {
        match spec_dec_token_balance(s) {
            Some(v) => match spec_dec_token_balance_elems(v.1, n - 1) {
                Some(t) => Some((seq![v.0] + t.0, t.1)),
                None => None,
            },
            None => None,
        }
    }
}

/// Decoding inverts encoding for sequences of balances.
pub proof fn lemma_token_balance_elems_round_trip(s: Seq<TokenBalance>, rest: Seq<u8>)
    ensures
        spec_dec_token_balance_elems(spec_enc_token_balance_elems(s) + rest, s.len() as int) == Some((s, rest)),
    decreases s.len(),
{
    lemma_prim_round_trip();
    if s.len() == 0 {
        assert(spec_enc_token_balance_elems(s) + rest =~= rest);
    } else {
        let tail = spec_enc_token_balance_elems(s.drop_first()) + rest;
        lemma_app_assoc(spec_enc_token_balance(s[0]), spec_enc_token_balance_elems(s.drop_first()), rest);
        assert(spec_enc_token_balance_elems(s) + rest == spec_enc_token_balance(s[0]) + tail);
        lemma_token_balance_round_trip(s[0], tail);
        lemma_token_balance_elems_round_trip(s.drop_first(), rest);
        assert(seq![s[0]] + s.drop_first() =~= s);
    }
}

/// The canonical bytes of a vector of balances: a four-byte count followed
/// by the elements.
pub open spec fn spec_enc_token_balance_vec(s: Seq<TokenBalance>) -> Seq<u8> {
    spec_enc_u32(s.len() as u32) + spec_enc_token_balance_elems(s)
}

/// Decode a vector of balances.
pub open spec fn spec_dec_token_balance_vec(s: Seq<u8>) -> Option<(Seq<TokenBalance>, Seq<u8>)> {
    match spec_dec_u32(s) {
        Some(n) => spec_dec_token_balance_elems(n.1, n.0 as int),
        None => None,
    }
}

/// Decoding inverts encoding for vectors of balances.
pub proof fn lemma_token_balance_vec_round_trip(s: Seq<TokenBalance>, rest: Seq<u8>)
    requires
        s.len() <= u32::MAX,
    ensures
        spec_dec_token_balance_vec(spec_enc_token_balance_vec(s) + rest) == Some((s, rest)),
{
    lemma_prim_round_trip();
    let tail = spec_enc_token_balance_elems(s) + rest;
    lemma_app_assoc(spec_enc_u32(s.len() as u32), spec_enc_token_balance_elems(s), rest);
    assert(spec_enc_token_balance_vec(s) + rest == spec_enc_u32(s.len() as u32) + tail);
    lemma_token_balance_elems_round_trip(s, rest);
}

/// Append a vector of balances.
pub fn enc_token_balance_vec(out: &mut Vec<u8>, s: &Vec<TokenBalance>)
    requires
        s@.len() <= u32::MAX,
    ensures
        final(out)@ == old(out)@ + spec_enc_token_balance_vec(s@),
{
    enc_u32(out, s.len() as u32);
    let n = s.len();
    let mut i: usize = 0;
    proof {
        assert(spec_enc_token_balance_elems(s@.take(0)) =~= Seq::<u8>::empty());
        assert(out@ =~= old(out)@ + spec_enc_u32(s@.len() as u32) + spec_enc_token_balance_elems(
            s@.take(0),
        ));
    }
    while i < n
        invariant
            n == s@.len() <= u32::MAX,
            0 <= i <= n,
            out@ == old(out)@ + spec_enc_u32(s@.len() as u32) + spec_enc_token_balance_elems(
                s@.take(i as int),
            ),
        decreases n - i,
    {
        enc_token_balance(out, &s[i]);
        proof {
            lemma_token_balance_elems_snoc(s@.take(i as int + 1));
            assert(s@.take(i as int + 1).drop_last() =~= s@.take(i as int));
            assert(s@.take(i as int + 1).last() == s@[i as int]);
            assert(out@ =~= old(out)@ + spec_enc_u32(s@.len() as u32) + spec_enc_token_balance_elems(
                s@.take(i as int + 1),
            ));
        }
        i = i + 1;
    }
    proof {
        assert(s@.take(n as int) =~= s@);
        assert(final(out)@ =~= old(out)@ + spec_enc_token_balance_vec(s@));
    }
}

/// A nonempty element sequence encodes as its prefix followed by its
/// last element.
proof fn lemma_token_balance_elems_snoc(s: Seq<TokenBalance>)
    requires
        s.len() >= 1,
    ensures
        spec_enc_token_balance_elems(s) == spec_enc_token_balance_elems(s.drop_last()) + spec_enc_token_balance(
            s.last(),
        ),
    decreases s.len(),
{
    if s.len() == 1 {
        assert(spec_enc_token_balance_elems(s.drop_first()) =~= Seq::<u8>::empty());
        assert(spec_enc_token_balance_elems(s.drop_last()) =~= Seq::<u8>::empty());
        assert(spec_enc_token_balance(s[0]) + Seq::<u8>::empty() =~= spec_enc_token_balance(s[0]));
    } else {
        lemma_token_balance_elems_snoc(s.drop_first());
        assert(s.drop_first().drop_last() =~= s.drop_last().drop_first());
        assert(s.drop_first().last() == s.last());
        assert(s.drop_last()[0] == s[0]);
        lemma_app_assoc(
            spec_enc_token_balance(s[0]),
            spec_enc_token_balance_elems(s.drop_last().drop_first()),
            spec_enc_token_balance(s.last()),
        );
    }
}

/// Read a vector of balances at `pos`.
pub fn dec_token_balance_vec(buf: &Vec<u8>, pos: usize) -> (r: Option<(Vec<TokenBalance>, usize)>)
    requires
        pos <= buf@.len(),
    ensures
        match r {
            Some(v) => pos <= v.1 <= buf@.len() && spec_dec_token_balance_vec(buf@.skip(pos as int))
                == Some((v.0@, buf@.skip(v.1 as int))),
            None => spec_dec_token_balance_vec(buf@.skip(pos as int)) is None,
        },
{
    let n = match dec_u32(buf, pos) {
        Some(v) => v,
        None => { return None },
    };
    let count = n.0 as usize;
    let mut out: Vec<TokenBalance> = Vec::new();
    let mut cur: usize = n.1;
    let mut i: usize = 0;
    proof {
        if spec_dec_token_balance_elems(buf@.skip(n.1 as int), count as int) is Some {
            let t = spec_dec_token_balance_elems(buf@.skip(n.1 as int), count as int)->Some_0;
            assert(Seq::<TokenBalance>::empty() + t.0 =~= t.0);
            assert(out@ + t.0 =~= t.0);
        }
    }
    while i < count
        invariant
            0 <= i <= count,
            pos <= cur <= buf@.len(),
            out@.len() == i,
            count == n.0,
            spec_dec_u32(buf@.skip(pos as int)) == Some((n.0, buf@.skip(n.1 as int))),
            ({
                let whole = spec_dec_token_balance_elems(buf@.skip(n.1 as int), count as int);
                match spec_dec_token_balance_elems(buf@.skip(cur as int), count - i) {
                    Some(t) => whole == Some((out@ + t.0, t.1)),
                    None => whole is None,
                }
            }),
        decreases count - i,
    {
        let vopt = dec_token_balance(buf, cur);
        if vopt.is_none() {
            proof {
                assert(spec_dec_token_balance_elems(buf@.skip(cur as int), count - i) is None);
                assert(spec_dec_token_balance_elems(buf@.skip(n.1 as int), count as int) is None);
                assert(spec_dec_token_balance_vec(buf@.skip(pos as int)) is None);
            }
            return None;
        }
        let v = vopt.unwrap();
        proof {
            let whole = spec_dec_token_balance_elems(buf@.skip(n.1 as int), count as int);
            let t1 = spec_dec_token_balance_elems(buf@.skip(v.1 as int), count - i - 1);
            if t1 is Some {
                assert(out@ + (seq![v.0] + t1->Some_0.0) =~= (out@ + seq![v.0]) + t1->Some_0.0);
            }
        }
        out.push(v.0);
        cur = v.1;
        i = i + 1;
    }
    proof {
        assert(spec_dec_token_balance_elems(buf@.skip(cur as int), 0) == Some(
            (Seq::<TokenBalance>::empty(), buf@.skip(cur as int)),
        ));
        assert(out@ + Seq::<TokenBalance>::empty() =~= out@);
    }
    Some((out, cur))
}

/// The canonical bytes of a sequence of buckets: each element in order.
pub open spec fn spec_enc_margin_bucket_elems(s: Seq<MarginBucket>) -> Seq<u8>
    decreases s.len(),
{
    if s.len() == 0 {
        Seq::empty()
    } else {
        spec_enc_margin_bucket(s[0]) + spec_enc_margin_bucket_elems(s.drop_first())
    }
}

/// Decode `n` elements of buckets.
pub open spec fn spec_dec_margin_bucket_elems(s: Seq<u8>, n: int) -> Option<(Seq<MarginBucket>, Seq<u8>)>
    decreases n,
{
    if n <= 0 {
        Some((Seq::empty(), s))
    } else {
        match spec_dec_margin_bucket(s) {
            Some(v) => match spec_dec_margin_bucket_elems(v.1, n - 1) {
                Some(t) => Some((seq![v.0] + t.0, t.1)),
                None => None,
            },
            None => None,
        }
    }
}

/// Decoding inverts encoding for sequences of buckets.
pub proof fn lemma_margin_bucket_elems_round_trip(s: Seq<MarginBucket>, rest: Seq<u8>)
    ensures
        spec_dec_margin_bucket_elems(spec_enc_margin_bucket_elems(s) + rest, s.len() as int) == Some((s, rest)),
    decreases s.len(),
{
    lemma_prim_round_trip();
    if s.len() == 0 {
        assert(spec_enc_margin_bucket_elems(s) + rest =~= rest);
    } else {
        let tail = spec_enc_margin_bucket_elems(s.drop_first()) + rest;
        lemma_app_assoc(spec_enc_margin_bucket(s[0]), spec_enc_margin_bucket_elems(s.drop_first()), rest);
        assert(spec_enc_margin_bucket_elems(s) + rest == spec_enc_margin_bucket(s[0]) + tail);
        lemma_margin_bucket_round_trip(s[0], tail);
        lemma_margin_bucket_elems_round_trip(s.drop_first(), rest);
        assert(seq![s[0]] + s.drop_first() =~= s);
    }
}

/// The canonical bytes of a vector of buckets: a four-byte count followed
/// by the elements.
pub open spec fn spec_enc_margin_bucket_vec(s: Seq<MarginBucket>) -> Seq<u8> {
    spec_enc_u32(s.len() as u32) + spec_enc_margin_bucket_elems(s)
}

/// Decode a vector of buckets.
pub open spec fn spec_dec_margin_bucket_vec(s: Seq<u8>) -> Option<(Seq<MarginBucket>, Seq<u8>)> {
    match spec_dec_u32(s) {
        Some(n) => spec_dec_margin_bucket_elems(n.1, n.0 as int),
        None => None,
    }
}

/// Decoding inverts encoding for vectors of buckets.
pub proof fn lemma_margin_bucket_vec_round_trip(s: Seq<MarginBucket>, rest: Seq<u8>)
    requires
        s.len() <= u32::MAX,
    ensures
        spec_dec_margin_bucket_vec(spec_enc_margin_bucket_vec(s) + rest) == Some((s, rest)),
{
    lemma_prim_round_trip();
    let tail = spec_enc_margin_bucket_elems(s) + rest;
    lemma_app_assoc(spec_enc_u32(s.len() as u32), spec_enc_margin_bucket_elems(s), rest);
    assert(spec_enc_margin_bucket_vec(s) + rest == spec_enc_u32(s.len() as u32) + tail);
    lemma_margin_bucket_elems_round_trip(s, rest);
}

/// Append a vector of buckets.
pub fn enc_margin_bucket_vec(out: &mut Vec<u8>, s: &Vec<MarginBucket>)
    requires
        s@.len() <= u32::MAX,
    ensures
        final(out)@ == old(out)@ + spec_enc_margin_bucket_vec(s@),
{
    enc_u32(out, s.len() as u32);
    let n = s.len();
    let mut i: usize = 0;
    proof {
        assert(spec_enc_margin_bucket_elems(s@.take(0)) =~= Seq::<u8>::empty());
        assert(out@ =~= old(out)@ + spec_enc_u32(s@.len() as u32) + spec_enc_margin_bucket_elems(
            s@.take(0),
        ));
    }
    while i < n
        invariant
            n == s@.len() <= u32::MAX,
            0 <= i <= n,
            out@ == old(out)@ + spec_enc_u32(s@.len() as u32) + spec_enc_margin_bucket_elems(
                s@.take(i as int),
            ),
        decreases n - i,
    {
        enc_margin_bucket(out, &s[i]);
        proof {
            lemma_margin_bucket_elems_snoc(s@.take(i as int + 1));
            assert(s@.take(i as int + 1).drop_last() =~= s@.take(i as int));
            assert(s@.take(i as int + 1).last() == s@[i as int]);
            assert(out@ =~= old(out)@ + spec_enc_u32(s@.len() as u32) + spec_enc_margin_bucket_elems(
                s@.take(i as int + 1),
            ));
        }
        i = i + 1;
    }
    proof {
        assert(s@.take(n as int) =~= s@);
        assert(final(out)@ =~= old(out)@ + spec_enc_margin_bucket_vec(s@));
    }
}

/// A nonempty element sequence encodes as its prefix followed by its
/// last element.
proof fn lemma_margin_bucket_elems_snoc(s: Seq<MarginBucket>)
    requires
        s.len() >= 1,
    ensures
        spec_enc_margin_bucket_elems(s) == spec_enc_margin_bucket_elems(s.drop_last()) + spec_enc_margin_bucket(
            s.last(),
        ),
    decreases s.len(),
{
    if s.len() == 1 {
        assert(spec_enc_margin_bucket_elems(s.drop_first()) =~= Seq::<u8>::empty());
        assert(spec_enc_margin_bucket_elems(s.drop_last()) =~= Seq::<u8>::empty());
        assert(spec_enc_margin_bucket(s[0]) + Seq::<u8>::empty() =~= spec_enc_margin_bucket(s[0]));
    } else {
        lemma_margin_bucket_elems_snoc(s.drop_first());
        assert(s.drop_first().drop_last() =~= s.drop_last().drop_first());
        assert(s.drop_first().last() == s.last());
        assert(s.drop_last()[0] == s[0]);
        lemma_app_assoc(
            spec_enc_margin_bucket(s[0]),
            spec_enc_margin_bucket_elems(s.drop_last().drop_first()),
            spec_enc_margin_bucket(s.last()),
        );
    }
}

/// Read a vector of buckets at `pos`.
pub fn dec_margin_bucket_vec(buf: &Vec<u8>, pos: usize) -> (r: Option<(Vec<MarginBucket>, usize)>)
    requires
        pos <= buf@.len(),
    ensures
        match r {
            Some(v) => pos <= v.1 <= buf@.len() && spec_dec_margin_bucket_vec(buf@.skip(pos as int))
                == Some((v.0@, buf@.skip(v.1 as int))),
            None => spec_dec_margin_bucket_vec(buf@.skip(pos as int)) is None,
        },
{
    let n = match dec_u32(buf, pos) {
        Some(v) => v,
        None => { return None },
    };
    let count = n.0 as usize;
    let mut out: Vec<MarginBucket> = Vec::new();
    let mut cur: usize = n.1;
    let mut i: usize = 0;
    proof {
        if spec_dec_margin_bucket_elems(buf@.skip(n.1 as int), count as int) is Some {
            let t = spec_dec_margin_bucket_elems(buf@.skip(n.1 as int), count as int)->Some_0;
            assert(Seq::<MarginBucket>::empty() + t.0 =~= t.0);
            assert(out@ + t.0 =~= t.0);
        }
    }
    while i < count
        invariant
            0 <= i <= count,
            pos <= cur <= buf@.len(),
            out@.len() == i,
            count == n.0,
            spec_dec_u32(buf@.skip(pos as int)) == Some((n.0, buf@.skip(n.1 as int))),
            ({
                let whole = spec_dec_margin_bucket_elems(buf@.skip(n.1 as int), count as int);
                match spec_dec_margin_bucket_elems(buf@.skip(cur as int), count - i) {
                    Some(t) => whole == Some((out@ + t.0, t.1)),
                    None => whole is None,
                }
            }),
        decreases count - i,
    {
        let vopt = dec_margin_bucket(buf, cur);
        if vopt.is_none() {
            proof {
                assert(spec_dec_margin_bucket_elems(buf@.skip(cur as int), count - i) is None);
                assert(spec_dec_margin_bucket_elems(buf@.skip(n.1 as int), count as int) is None);
                assert(spec_dec_margin_bucket_vec(buf@.skip(pos as int)) is None);
            }
            return None;
        }
        let v = vopt.unwrap();
        proof {
            let whole = spec_dec_margin_bucket_elems(buf@.skip(n.1 as int), count as int);
            let t1 = spec_dec_margin_bucket_elems(buf@.skip(v.1 as int), count - i - 1);
            if t1 is Some {
                assert(out@ + (seq![v.0] + t1->Some_0.0) =~= (out@ + seq![v.0]) + t1->Some_0.0);
            }
        }
        out.push(v.0);
        cur = v.1;
        i = i + 1;
    }
    proof {
        assert(spec_dec_margin_bucket_elems(buf@.skip(cur as int), 0) == Some(
            (Seq::<MarginBucket>::empty(), buf@.skip(cur as int)),
        ));
        assert(out@ + Seq::<MarginBucket>::empty() =~= out@);
    }
    Some((out, cur))
}

/// The canonical bytes of a `NonceWindowState` record.
pub open spec fn spec_enc_nonce_window(x: NonceWindowState) -> Seq<u8> {
    spec_enc_pubkey(x.signer) + spec_enc_u8(x.k) + spec_enc_u64_vec(x.top@) + spec_enc_u8(x.bump)
}

/// Append a `NonceWindowState` record.
pub fn enc_nonce_window(out: &mut Vec<u8>, x: &NonceWindowState)
    requires
        x.top@.len() <= u32::MAX,
    ensures
        final(out)@ == old(out)@ + spec_enc_nonce_window(*x),
{
    enc_pubkey(out, &x.signer);
    enc_u8(out, x.k);
    enc_u64_vec(out, &x.top);
    enc_u8(out, x.bump);
    proof {
        assert(final(out)@ =~= old(out)@ + spec_enc_nonce_window(*x));
    }
}

/// Decode a `NonceWindowState` record to its components.
pub open spec fn spec_dec_nonce_window(s: Seq<u8>) -> Option<((Pubkey, u8, Seq<u64>, u8), Seq<u8>)> {
    match spec_dec_pubkey(s) {
        Some(a0) => match spec_dec_u8(a0.1) {
            Some(a1) => match spec_dec_u64_vec(a1.1) {
                Some(a2) => match spec_dec_u8(a2.1) {
                    Some(a3) => Some(((a0.0, a1.0, a2.0, a3.0), a3.1)),
                    None => None,
                },
                None => None,
            },
            None => None,
        },
        None => None,
    }
}

/// Decoding inverts encoding for `NonceWindowState` records.
pub proof fn lemma_nonce_window_round_trip(x: NonceWindowState, rest: Seq<u8>)
    requires
        x.top@.len() <= u32::MAX,
    ensures
        spec_dec_nonce_window(spec_enc_nonce_window(x) + rest) == Some(
            ((x.signer, x.k, x.top@, x.bump), rest),
        ),
{
    lemma_prim_round_trip();
    let t2 = spec_enc_u8(x.bump) + rest;
    let t1 = spec_enc_u64_vec(x.top@) + t2;
    let t0 = spec_enc_u8(x.k) + t1;
    lemma_app_assoc((spec_enc_pubkey(x.signer) + spec_enc_u8(x.k)) + spec_enc_u64_vec(x.top@), spec_enc_u8(x.bump), rest);
    lemma_app_assoc(spec_enc_pubkey(x.signer) + spec_enc_u8(x.k), spec_enc_u64_vec(x.top@), t2);
    lemma_app_assoc(spec_enc_pubkey(x.signer), spec_enc_u8(x.k), t1);
    assert(spec_enc_nonce_window(x) + rest == spec_enc_pubkey(x.signer) + t0);
    lemma_u64_vec_round_trip(x.top@, t2);
}

/// Read a `NonceWindowState` record at `pos`.
pub fn dec_nonce_window(buf: &Vec<u8>, pos: usize) -> (r: Option<(NonceWindowState, usize)>)
    requires
        pos <= buf@.len(),
    ensures
        match r {
            Some(v) => pos <= v.1 <= buf@.len() && spec_dec_nonce_window(buf@.skip(pos as int))
                == Some(((v.0.signer, v.0.k, v.0.top@, v.0.bump), buf@.skip(v.1 as int))),
            None => spec_dec_nonce_window(buf@.skip(pos as int)) is None,
        },
{
    let a0 = match dec_pubkey(buf, pos) {
        Some(v) => v,
        None => { return None },
    };
    let a1 = match dec_u8(buf, a0.1) {
        Some(v) => v,
        None => { return None },
    };
    let a2 = match dec_u64_vec(buf, a1.1) {
        Some(v) => v,
        None => { return None },
    };
    let a3 = match dec_u8(buf, a2.1) {
        Some(v) => v,
        None => { return None },
    };
    Some((NonceWindowState { signer: a0.0, k: a1.0, top: a2.0, bump: a3.0 }, a3.1))
}

/// The canonical bytes of a `GlobalStateV1` record.
pub open spec fn spec_enc_global_state(x: GlobalStateV1) -> Seq<u8> {
    spec_enc_u8(x.version) + x._pad@ + spec_enc_pubkey_vec(x.admins@) + spec_enc_pubkey_vec(
        x.keepers@,
    ) + spec_enc_u64(x.min_deposit_size) + x._pad2@
}

/// Append a `GlobalStateV1` record.
pub fn enc_global_state(out: &mut Vec<u8>, x: &GlobalStateV1)
    requires
        x.admins@.len() <= u32::MAX,
        x.keepers@.len() <= u32::MAX,
    ensures
        final(out)@ == old(out)@ + spec_enc_global_state(*x),
{
    enc_u8(out, x.version);
    enc_bytes_n(out, &x._pad);
    enc_pubkey_vec(out, &x.admins);
    enc_pubkey_vec(out, &x.keepers);
    enc_u64(out, x.min_deposit_size);
    enc_bytes_n(out, &x._pad2);
    proof {
        assert(final(out)@ =~= old(out)@ + spec_enc_global_state(*x));
    }
}

/// The canonical bytes of a `CrossMarginAccountV1` record.
pub open spec fn spec_enc_cma_state(x: CrossMarginAccountV1) -> Seq<u8> {
    spec_enc_u8(x.version) + x._pad@ + spec_enc_pubkey(x.user) + spec_enc_token_balance_vec(
        x.balances@,
    ) + spec_enc_margin_bucket_vec(x.buckets@) + x._pad2@
}

/// Append a `CrossMarginAccountV1` record.
pub fn enc_cma_state(out: &mut Vec<u8>, x: &CrossMarginAccountV1)
    requires
        x.balances@.len() <= u32::MAX,
        x.buckets@.len() <= u32::MAX,
    ensures
        final(out)@ == old(out)@ + spec_enc_cma_state(*x),
{
    enc_u8(out, x.version);
    enc_bytes_n(out, &x._pad);
    enc_pubkey(out, &x.user);
    enc_token_balance_vec(out, &x.balances);
    enc_margin_bucket_vec(out, &x.buckets);
    enc_bytes_n(out, &x._pad2);
    proof {
        assert(final(out)@ =~= old(out)@ + spec_enc_cma_state(*x));
    }
}

/// Decode a `CrossMarginAccountV1` record to its components.
pub open spec fn spec_dec_cma_state(s: Seq<u8>) -> Option<
    ((u8, Seq<u8>, Pubkey, Seq<TokenBalance>, Seq<MarginBucket>, Seq<u8>), Seq<u8>),
> {
    match spec_dec_u8(s) {
        Some(a0) => match spec_dec_arr::<128>(a0.1) {
            Some(a1) => match spec_dec_pubkey(a1.1) {
                Some(a2) => match spec_dec_token_balance_vec(a2.1) {
                    Some(a3) => match spec_dec_margin_bucket_vec(a3.1) {
                        Some(a4) => match spec_dec_arr::<8>(a4.1) {
                            Some(a5) => Some(
                                ((a0.0, a1.0@, a2.0, a3.0, a4.0, a5.0@), a5.1),
                            ),
                            None => None,
                        },
                        None => None,
                    },
                    None => None,
                },
                None => None,
            },
            None => None,
        },
        None => None,
    }
}

/// Decoding inverts encoding for `CrossMarginAccountV1` records.
pub proof fn lemma_cma_state_round_trip(x: CrossMarginAccountV1, rest: Seq<u8>)
    requires
        x.balances@.len() <= u32::MAX,
        x.buckets@.len() <= u32::MAX,
    ensures
        spec_dec_cma_state(spec_enc_cma_state(x) + rest) == Some(
            ((x.version, x._pad@, x.user, x.balances@, x.buckets@, x._pad2@), rest),
        ),
{
    lemma_prim_round_trip();
    broadcast use vstd::array::array_len_matches_n;

    let t4 = x._pad2@ + rest;
    let t3 = spec_enc_margin_bucket_vec(x.buckets@) + t4;
    let t2 = spec_enc_token_balance_vec(x.balances@) + t3;
    let t1 = spec_enc_pubkey(x.user) + t2;
    let t0 = x._pad@ + t1;
    lemma_app_assoc(
        (((spec_enc_u8(x.version) + x._pad@) + spec_enc_pubkey(x.user))
            + spec_enc_token_balance_vec(x.balances@)) + spec_enc_margin_bucket_vec(x.buckets@),
        x._pad2@,
        rest,
    );
    lemma_app_assoc(
        ((spec_enc_u8(x.version) + x._pad@) + spec_enc_pubkey(x.user))
            + spec_enc_token_balance_vec(x.balances@),
        spec_enc_margin_bucket_vec(x.buckets@),
        t4,
    );
    lemma_app_assoc(
        (spec_enc_u8(x.version) + x._pad@) + spec_enc_pubkey(x.user),
        spec_enc_token_balance_vec(x.balances@),
        t3,
    );
    lemma_app_assoc(spec_enc_u8(x.version) + x._pad@, spec_enc_pubkey(x.user), t2);
    lemma_app_assoc(spec_enc_u8(x.version), x._pad@, t1);
    assert(spec_enc_cma_state(x) + rest == spec_enc_u8(x.version) + t0);
    lemma_arr_round_trip::<128>(x._pad, t1);
    lemma_token_balance_vec_round_trip(x.balances@, t3);
    lemma_margin_bucket_vec_round_trip(x.buckets@, t4);
    lemma_arr_round_trip::<8>(x._pad2, rest);
}

/// Read a `CrossMarginAccountV1` record at `pos`.
pub fn dec_cma_state(buf: &Vec<u8>, pos: usize) -> (r: Option<(CrossMarginAccountV1, usize)>)
    requires
        pos <= buf@.len(),
    ensures
        match r {
            Some(v) => pos <= v.1 <= buf@.len() && spec_dec_cma_state(buf@.skip(pos as int))
                == Some(
                (
                    (
                        v.0.version,
                        v.0._pad@,
                        v.0.user,
                        v.0.balances@,
                        v.0.buckets@,
                        v.0._pad2@,
                    ),
                    buf@.skip(v.1 as int),
                ),
            ),
            None => spec_dec_cma_state(buf@.skip(pos as int)) is None,
        },
{
    let a0 = match dec_u8(buf, pos) {
        Some(v) => v,
        None => { return None },
    };
    let a1 = match dec_bytes_n::<128>(buf, a0.1) {
        Some(v) => v,
        None => { return None },
    };
    let a2 = match dec_pubkey(buf, a1.1) {
        Some(v) => v,
        None => { return None },
    };
    let a3 = match dec_token_balance_vec(buf, a2.1) {
        Some(v) => v,
        None => { return None },
    };
    let a4 = match dec_margin_bucket_vec(buf, a3.1) {
        Some(v) => v,
        None => { return None },
    };
    let a5 = match dec_bytes_n::<8>(buf, a4.1) {
        Some(v) => v,
        None => { return None },
    };
    Some(
        (
            CrossMarginAccountV1 {
                version: a0.0,
                _pad: a1.0,
                user: a2.0,
                balances: a3.0,
                buckets: a4.0,
                _pad2: a5.0,
            },
            a5.1,
        ),
    )
}

} // verus!
