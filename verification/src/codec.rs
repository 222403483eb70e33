//! Canonical byte encoding, primitive layer.
//!
//! Every persisted and signed record is encoded deterministically:
//! fixed-width integers little-endian, tagged-union variants as a one-byte
//! discriminant in declaration order followed by the variant's fields,
//! `Option` as `0x00` or `0x01` followed by the value, and byte vectors
//! length-prefixed with a four-byte little-endian count.  Each record kind
//! has a specification encoder, a specification decoder that inverts it,
//! and executable functions proved against the pair.

use vstd::bytes::spec_u128_from_le_bytes;
use vstd::bytes::spec_u128_to_le_bytes;
use vstd::bytes::spec_u16_from_le_bytes;
use vstd::bytes::spec_u16_to_le_bytes;
use vstd::bytes::spec_u32_from_le_bytes;
use vstd::bytes::spec_u32_to_le_bytes;
use vstd::bytes::spec_u64_from_le_bytes;
use vstd::bytes::spec_u64_to_le_bytes;
use vstd::prelude::*;

verus! {

/// The canonical bytes of a `u8`.
pub open spec fn spec_enc_u8(x: u8) -> Seq<u8> {
    seq![x]
}

/// The canonical bytes of a `bool`: one byte, zero or one.
pub open spec fn spec_enc_bool(x: bool) -> Seq<u8> {
    if x {
        seq![1u8]
    } else {
        seq![0u8]
    }
}

/// The canonical bytes of a `u16`.
pub open spec fn spec_enc_u16(x: u16) -> Seq<u8> {
    spec_u16_to_le_bytes(x)
}

/// The canonical bytes of a `u32`.
pub open spec fn spec_enc_u32(x: u32) -> Seq<u8> {
    spec_u32_to_le_bytes(x)
}

/// The canonical bytes of a `u64`.
pub open spec fn spec_enc_u64(x: u64) -> Seq<u8> {
    spec_u64_to_le_bytes(x)
}

/// The canonical bytes of a `u128`.
pub open spec fn spec_enc_u128(x: u128) -> Seq<u8> {
    spec_u128_to_le_bytes(x)
}

/// The canonical bytes of an `i64`: its two's-complement image.
pub open spec fn spec_enc_i64(x: i64) -> Seq<u8> {
    spec_u64_to_le_bytes(x as u64)
}

/// The canonical bytes of a key: its four limbs in order.
pub open spec fn spec_enc_pubkey(k: crate::keys::Pubkey) -> Seq<u8> {
    spec_enc_u64(k.w0) + spec_enc_u64(k.w1) + spec_enc_u64(k.w2) + spec_enc_u64(k.w3)
}

/// Decode a `u8`, returning the value and the remaining bytes.
pub open spec fn spec_dec_u8(s: Seq<u8>) -> Option<(u8, Seq<u8>)> {
    if s.len() >= 1 {
        Some((s[0], s.skip(1)))
    } else {
        None
    }
}

/// Decode a `bool` from one byte; only zero and one are canonical.
pub open spec fn spec_dec_bool(s: Seq<u8>) -> Option<(bool, Seq<u8>)> {
    if s.len() >= 1 && (s[0] == 0 || s[0] == 1) {
        Some((s[0] == 1, s.skip(1)))
    } else {
        None
    }
}

/// Decode a `u16`.
pub open spec fn spec_dec_u16(s: Seq<u8>) -> Option<(u16, Seq<u8>)> {
    if s.len() >= 2 {
        Some((spec_u16_from_le_bytes(s.take(2)), s.skip(2)))
    } else {
        None
    }
}

/// Decode a `u32`.
pub open spec fn spec_dec_u32(s: Seq<u8>) -> Option<(u32, Seq<u8>)> {
    if s.len() >= 4 {
        Some((spec_u32_from_le_bytes(s.take(4)), s.skip(4)))
    } else {
        None
    }
}

/// Decode a `u64`.
pub open spec fn spec_dec_u64(s: Seq<u8>) -> Option<(u64, Seq<u8>)> {
    if s.len() >= 8 {
        Some((spec_u64_from_le_bytes(s.take(8)), s.skip(8)))
    } else {
        None
    }
}

/// Decode a `u128`.
pub open spec fn spec_dec_u128(s: Seq<u8>) -> Option<(u128, Seq<u8>)> {
    if s.len() >= 16 {
        Some((spec_u128_from_le_bytes(s.take(16)), s.skip(16)))
    } else {
        None
    }
}

/// Decode an `i64` from its two's-complement image.
pub open spec fn spec_dec_i64(s: Seq<u8>) -> Option<(i64, Seq<u8>)> {
    match spec_dec_u64(s) {
        Some(v) => Some((v.0 as i64, v.1)),
        None => None,
    }
}

/// Decode a key.
pub open spec fn spec_dec_pubkey(s: Seq<u8>) -> Option<(crate::keys::Pubkey, Seq<u8>)> {
    match spec_dec_u64(s) {
        Some(v0) => match spec_dec_u64(v0.1) {
            Some(v1) => match spec_dec_u64(v1.1) {
                Some(v2) => match spec_dec_u64(v2.1) {
                    Some(v3) => Some(
                        (
                            crate::keys::Pubkey { w0: v0.0, w1: v1.0, w2: v2.0, w3: v3.0 },
                            v3.1,
                        ),
                    ),
                    None => None,
                },
                None => None,
            },
            None => None,
        },
        None => None,
    }
}

/// Decoding inverts encoding for every primitive, with any trailing
/// bytes passed through.
pub proof fn lemma_prim_round_trip()
    ensures
        forall|x: u8, rest: Seq<u8>| #[trigger]
            spec_dec_u8(spec_enc_u8(x) + rest) == Some((x, rest)),
        forall|x: bool, rest: Seq<u8>| #[trigger]
            spec_dec_bool(spec_enc_bool(x) + rest) == Some((x, rest)),
        forall|x: u16, rest: Seq<u8>| #[trigger]
            spec_dec_u16(spec_enc_u16(x) + rest) == Some((x, rest)),
        forall|x: u32, rest: Seq<u8>| #[trigger]
            spec_dec_u32(spec_enc_u32(x) + rest) == Some((x, rest)),
        forall|x: u64, rest: Seq<u8>| #[trigger]
            spec_dec_u64(spec_enc_u64(x) + rest) == Some((x, rest)),
        forall|x: u128, rest: Seq<u8>| #[trigger]
            spec_dec_u128(spec_enc_u128(x) + rest) == Some((x, rest)),
        forall|x: i64, rest: Seq<u8>| #[trigger]
            spec_dec_i64(spec_enc_i64(x) + rest) == Some((x, rest)),
        forall|k: crate::keys::Pubkey, rest: Seq<u8>| #[trigger]
            spec_dec_pubkey(spec_enc_pubkey(k) + rest) == Some((k, rest)),
        forall|x: u8| #[trigger] spec_enc_u8(x).len() == 1,
        forall|x: bool| #[trigger] spec_enc_bool(x).len() == 1,
        forall|x: u16| #[trigger] spec_enc_u16(x).len() == 2,
        forall|x: u32| #[trigger] spec_enc_u32(x).len() == 4,
        forall|x: u64| #[trigger] spec_enc_u64(x).len() == 8,
        forall|x: u128| #[trigger] spec_enc_u128(x).len() == 16,
        forall|x: i64| #[trigger] spec_enc_i64(x).len() == 8,
        forall|k: crate::keys::Pubkey| #[trigger] spec_enc_pubkey(k).len() == 32,
{
    vstd::bytes::lemma_auto_spec_u16_to_from_le_bytes();
    vstd::bytes::lemma_auto_spec_u32_to_from_le_bytes();
    vstd::bytes::lemma_auto_spec_u64_to_from_le_bytes();
    vstd::bytes::lemma_auto_spec_u128_to_from_le_bytes();
    assert forall|x: u8, rest: Seq<u8>| #[trigger] spec_dec_u8(spec_enc_u8(x) + rest) == Some(
        (x, rest),
    ) by {
        assert((spec_enc_u8(x) + rest)[0] == x);
        assert((spec_enc_u8(x) + rest).skip(1) =~= rest);
    }
    assert forall|x: bool, rest: Seq<u8>| #[trigger] spec_dec_bool(spec_enc_bool(x) + rest) == Some(
        (x, rest),
    ) by {
        assert((spec_enc_bool(x) + rest)[0] == (if x {
            1u8
        } else {
            0u8
        }));
        assert((spec_enc_bool(x) + rest).skip(1) =~= rest);
    }
    assert forall|x: u16, rest: Seq<u8>| #[trigger] spec_dec_u16(spec_enc_u16(x) + rest) == Some(
        (x, rest),
    ) by {
        assert((spec_enc_u16(x) + rest).take(2) =~= spec_enc_u16(x));
        assert((spec_enc_u16(x) + rest).skip(2) =~= rest);
    }
    assert forall|x: u32, rest: Seq<u8>| #[trigger] spec_dec_u32(spec_enc_u32(x) + rest) == Some(
        (x, rest),
    ) by {
        assert((spec_enc_u32(x) + rest).take(4) =~= spec_enc_u32(x));
        assert((spec_enc_u32(x) + rest).skip(4) =~= rest);
    }
    assert forall|x: u64, rest: Seq<u8>| #[trigger] spec_dec_u64(spec_enc_u64(x) + rest) == Some(
        (x, rest),
    ) by {
        assert((spec_enc_u64(x) + rest).take(8) =~= spec_enc_u64(x));
        assert((spec_enc_u64(x) + rest).skip(8) =~= rest);
    }
    assert forall|x: u128, rest: Seq<u8>| #[trigger] spec_dec_u128(spec_enc_u128(x) + rest) == Some(
        (x, rest),
    ) by {
        assert((spec_enc_u128(x) + rest).take(16) =~= spec_enc_u128(x));
        assert((spec_enc_u128(x) + rest).skip(16) =~= rest);
    }
    assert forall|x: i64, rest: Seq<u8>| #[trigger] spec_dec_i64(spec_enc_i64(x) + rest) == Some(
        (x, rest),
    ) by {
        assert(spec_dec_u64(spec_enc_u64(x as u64) + rest) == Some(((x as u64), rest)));
        assert(((x as u64) as i64) == x) by (bit_vector);
    }
    assert forall|k: crate::keys::Pubkey, rest: Seq<u8>| #[trigger] spec_dec_pubkey(
        spec_enc_pubkey(k) + rest,
    ) == Some((k, rest)) by {
        let t = spec_enc_u64(k.w1) + spec_enc_u64(k.w2) + spec_enc_u64(k.w3) + rest;
        assert(spec_enc_pubkey(k) + rest =~= spec_enc_u64(k.w0) + t);
        assert(spec_dec_u64(spec_enc_u64(k.w0) + t) == Some((k.w0, t)));
        let t1 = spec_enc_u64(k.w2) + spec_enc_u64(k.w3) + rest;
        assert(t =~= spec_enc_u64(k.w1) + t1);
        let t2 = spec_enc_u64(k.w3) + rest;
        assert(t1 =~= spec_enc_u64(k.w2) + t2);
    }
}

/// Append one `u8`.
pub fn enc_u8(out: &mut Vec<u8>, x: u8)
    ensures
        final(out)@ == old(out)@ + spec_enc_u8(x),
{
    out.push(x);
    proof {
        assert(final(out)@ =~= old(out)@ + spec_enc_u8(x));
    }
}

/// Append one `bool` byte.
pub fn enc_bool(out: &mut Vec<u8>, x: bool)
    ensures
        final(out)@ == old(out)@ + spec_enc_bool(x),
{
    if x {
        out.push(1);
    } else {
        out.push(0);
    }
    proof {
        assert(final(out)@ =~= old(out)@ + spec_enc_bool(x));
    }
}

/// Append a `u16`, little-endian.
pub fn enc_u16(out: &mut Vec<u8>, x: u16)
    ensures
        final(out)@ == old(out)@ + spec_enc_u16(x),
{
    let mut b = vstd::bytes::u16_to_le_bytes(x);
    out.append(&mut b);
}

/// Append a `u32`, little-endian.
pub fn enc_u32(out: &mut Vec<u8>, x: u32)
    ensures
        final(out)@ == old(out)@ + spec_enc_u32(x),
{
    let mut b = vstd::bytes::u32_to_le_bytes(x);
    out.append(&mut b);
}

/// Append a `u64`, little-endian.
pub fn enc_u64(out: &mut Vec<u8>, x: u64)
    ensures
        final(out)@ == old(out)@ + spec_enc_u64(x),
{
    let mut b = vstd::bytes::u64_to_le_bytes(x);
    out.append(&mut b);
}

/// Append a `u128`, little-endian.
pub fn enc_u128(out: &mut Vec<u8>, x: u128)
    ensures
        final(out)@ == old(out)@ + spec_enc_u128(x),
{
    let mut b = vstd::bytes::u128_to_le_bytes(x);
    out.append(&mut b);
}

/// Append an `i64` as its two's-complement image, little-endian.
pub fn enc_i64(out: &mut Vec<u8>, x: i64)
    ensures
        final(out)@ == old(out)@ + spec_enc_i64(x),
{
    #[verifier::truncate]
    let u = x as u64;
    enc_u64(out, u);
}

/// Append a key's four limbs.
pub fn enc_pubkey(out: &mut Vec<u8>, k: &crate::keys::Pubkey)
    ensures
        final(out)@ == old(out)@ + spec_enc_pubkey(*k),
{
    enc_u64(out, k.w0);
    enc_u64(out, k.w1);
    enc_u64(out, k.w2);
    enc_u64(out, k.w3);
    proof {
        assert(final(out)@ =~= old(out)@ + spec_enc_pubkey(*k));
    }
}

/// Read one `u8` at `pos`.
pub fn dec_u8(buf: &Vec<u8>, pos: usize) -> (r: Option<(u8, usize)>)
    requires
        pos <= buf@.len(),
    ensures
        match r {
            Some(v) => pos < buf@.len() && v.1 == pos + 1 && spec_dec_u8(buf@.skip(pos as int))
                == Some((v.0, buf@.skip(v.1 as int))),
            None => pos >= buf@.len() && spec_dec_u8(buf@.skip(pos as int)) is None,
        },
{
    if pos < buf.len() {
        proof {
            assert(buf@.skip(pos as int)[0] == buf@[pos as int]);
            assert(buf@.skip(pos as int).skip(1) =~= buf@.skip(pos as int + 1));
        }
        Some((buf[pos], pos + 1))
    } else {
        proof {
            assert(buf@.skip(pos as int).len() == 0);
        }
        None
    }
}

/// Read one `bool` byte at `pos`; only zero and one decode.
pub fn dec_bool(buf: &Vec<u8>, pos: usize) -> (r: Option<(bool, usize)>)
    requires
        pos <= buf@.len(),
    ensures
        match r {
            Some(v) => pos < buf@.len() && v.1 == pos + 1 && spec_dec_bool(buf@.skip(pos as int))
                == Some((v.0, buf@.skip(v.1 as int))),
            None => spec_dec_bool(buf@.skip(pos as int)) is None,
        },
{
    if pos < buf.len() {
        let b = buf[pos];
        proof {
            assert(buf@.skip(pos as int)[0] == buf@[pos as int]);
            assert(buf@.skip(pos as int).skip(1) =~= buf@.skip(pos as int + 1));
        }
        if b == 0 {
            Some((false, pos + 1))
        } else if b == 1 {
            Some((true, pos + 1))
        } else {
            None
        }
    } else {
        proof {
            assert(buf@.skip(pos as int).len() == 0);
        }
        None
    }
}

/// Read a little-endian `u16` at `pos`.
pub fn dec_u16(buf: &Vec<u8>, pos: usize) -> (r: Option<(u16, usize)>)
    requires
        pos <= buf@.len(),
    ensures
        match r {
            Some(v) => pos + 2 <= buf@.len() && v.1 == pos + 2 && spec_dec_u16(
                buf@.skip(pos as int),
            ) == Some((v.0, buf@.skip(v.1 as int))),
            None => pos + 2 > buf@.len() && spec_dec_u16(buf@.skip(pos as int)) is None,
        },
{
    let n = buf.len();
    if pos < n && n - pos >= 2 {
        let s = vstd::slice::slice_subrange(buf.as_slice(), pos, pos + 2);
        let x = vstd::bytes::u16_from_le_bytes(s);
        proof {
            assert(buf@.skip(pos as int).take(2) =~= buf@.subrange(pos as int, pos as int + 2));
            assert(buf@.skip(pos as int).skip(2) =~= buf@.skip(pos as int + 2));
        }
        Some((x, pos + 2))
    } else {
        proof {
            assert(buf@.skip(pos as int).len() < 2);
        }
        None
    }
}

/// Read a little-endian `u32` at `pos`.
pub fn dec_u32(buf: &Vec<u8>, pos: usize) -> (r: Option<(u32, usize)>)
    requires
        pos <= buf@.len(),
    ensures
        match r {
            Some(v) => pos + 4 <= buf@.len() && v.1 == pos + 4 && spec_dec_u32(
                buf@.skip(pos as int),
            ) == Some((v.0, buf@.skip(v.1 as int))),
            None => pos + 4 > buf@.len() && spec_dec_u32(buf@.skip(pos as int)) is None,
        },
{
    let n = buf.len();
    if pos < n && n - pos >= 4 {
        let s = vstd::slice::slice_subrange(buf.as_slice(), pos, pos + 4);
        let x = vstd::bytes::u32_from_le_bytes(s);
        proof {
            assert(buf@.skip(pos as int).take(4) =~= buf@.subrange(pos as int, pos as int + 4));
            assert(buf@.skip(pos as int).skip(4) =~= buf@.skip(pos as int + 4));
        }
        Some((x, pos + 4))
    } else {
        proof {
            assert(buf@.skip(pos as int).len() < 4);
        }
        None
    }
}

/// Read a little-endian `u64` at `pos`.
pub fn dec_u64(buf: &Vec<u8>, pos: usize) -> (r: Option<(u64, usize)>)
    requires
        pos <= buf@.len(),
    ensures
        match r {
            Some(v) => pos + 8 <= buf@.len() && v.1 == pos + 8 && spec_dec_u64(
                buf@.skip(pos as int),
            ) == Some((v.0, buf@.skip(v.1 as int))),
            None => pos + 8 > buf@.len() && spec_dec_u64(buf@.skip(pos as int)) is None,
        },
{
    let n = buf.len();
    if pos < n && n - pos >= 8 {
        let s = vstd::slice::slice_subrange(buf.as_slice(), pos, pos + 8);
        let x = vstd::bytes::u64_from_le_bytes(s);
        proof {
            assert(buf@.skip(pos as int).take(8) =~= buf@.subrange(pos as int, pos as int + 8));
            assert(buf@.skip(pos as int).skip(8) =~= buf@.skip(pos as int + 8));
        }
        Some((x, pos + 8))
    } else {
        proof {
            assert(buf@.skip(pos as int).len() < 8);
        }
        None
    }
}

/// Read a little-endian `u128` at `pos`.
pub fn dec_u128(buf: &Vec<u8>, pos: usize) -> (r: Option<(u128, usize)>)
    requires
        pos <= buf@.len(),
    ensures
        match r {
            Some(v) => pos + 16 <= buf@.len() && v.1 == pos + 16 && spec_dec_u128(
                buf@.skip(pos as int),
            ) == Some((v.0, buf@.skip(v.1 as int))),
            None => pos + 16 > buf@.len() && spec_dec_u128(buf@.skip(pos as int)) is None,
        },
{
    let n = buf.len();
    if pos < n && n - pos >= 16 {
        let s = vstd::slice::slice_subrange(buf.as_slice(), pos, pos + 16);
        let x = vstd::bytes::u128_from_le_bytes(s);
        proof {
            assert(buf@.skip(pos as int).take(16) =~= buf@.subrange(pos as int, pos as int + 16));
            assert(buf@.skip(pos as int).skip(16) =~= buf@.skip(pos as int + 16));
        }
        Some((x, pos + 16))
    } else {
        proof {
            assert(buf@.skip(pos as int).len() < 16);
        }
        None
    }
}

/// Read an `i64` at `pos`, from its two's-complement image.
pub fn dec_i64(buf: &Vec<u8>, pos: usize) -> (r: Option<(i64, usize)>)
    requires
        pos <= buf@.len(),
    ensures
        match r {
            Some(v) => pos + 8 <= buf@.len() && v.1 == pos + 8 && spec_dec_i64(
                buf@.skip(pos as int),
            ) == Some((v.0, buf@.skip(v.1 as int))),
            None => pos + 8 > buf@.len() && spec_dec_i64(buf@.skip(pos as int)) is None,
        },
{
    match dec_u64(buf, pos) {
        Some(v) => {
            #[verifier::truncate]
            let x = v.0 as i64;
            Some((x, v.1))
        },
        None => None,
    }
}

/// Read a key at `pos`.
pub fn dec_pubkey(buf: &Vec<u8>, pos: usize) -> (r: Option<(crate::keys::Pubkey, usize)>)
    requires
        pos <= buf@.len(),
    ensures
        match r {
            Some(v) => pos <= v.1 <= buf@.len() && spec_dec_pubkey(buf@.skip(pos as int)) == Some(
                (v.0, buf@.skip(v.1 as int)),
            ),
            None => spec_dec_pubkey(buf@.skip(pos as int)) is None,
        },
{
    let v0 = match dec_u64(buf, pos) {
        Some(v) => v,
        None => { return None },
    };
    let v1 = match dec_u64(buf, v0.1) {
        Some(v) => v,
        None => { return None },
    };
    let v2 = match dec_u64(buf, v1.1) {
        Some(v) => v,
        None => { return None },
    };
    let v3 = match dec_u64(buf, v2.1) {
        Some(v) => v,
        None => { return None },
    };
    Some((crate::keys::Pubkey { w0: v0.0, w1: v1.0, w2: v2.0, w3: v3.0 }, v3.1))
}

/// A successful primitive decode consumed exactly the canonical bytes of
/// its result.
pub proof fn lemma_prim_sound()
    ensures
        forall|s: Seq<u8>|
            (#[trigger] spec_dec_u8(s)) matches Some(v) ==> s == spec_enc_u8(v.0) + v.1,
        forall|s: Seq<u8>|
            (#[trigger] spec_dec_bool(s)) matches Some(v) ==> s == spec_enc_bool(v.0) + v.1,
        forall|s: Seq<u8>|
            (#[trigger] spec_dec_u16(s)) matches Some(v) ==> s == spec_enc_u16(v.0) + v.1,
        forall|s: Seq<u8>|
            (#[trigger] spec_dec_u32(s)) matches Some(v) ==> s == spec_enc_u32(v.0) + v.1,
        forall|s: Seq<u8>|
            (#[trigger] spec_dec_u64(s)) matches Some(v) ==> s == spec_enc_u64(v.0) + v.1,
        forall|s: Seq<u8>|
            (#[trigger] spec_dec_u128(s)) matches Some(v) ==> s == spec_enc_u128(v.0) + v.1,
        forall|s: Seq<u8>|
            (#[trigger] spec_dec_i64(s)) matches Some(v) ==> s == spec_enc_i64(v.0) + v.1,
        forall|s: Seq<u8>|
            (#[trigger] spec_dec_pubkey(s)) matches Some(v) ==> s == spec_enc_pubkey(v.0) + v.1,
{
    vstd::bytes::lemma_auto_spec_u16_to_from_le_bytes();
    vstd::bytes::lemma_auto_spec_u32_to_from_le_bytes();
    vstd::bytes::lemma_auto_spec_u64_to_from_le_bytes();
    vstd::bytes::lemma_auto_spec_u128_to_from_le_bytes();
    assert forall|s: Seq<u8>| spec_dec_u8(s) is Some implies s == spec_enc_u8(
        (#[trigger] spec_dec_u8(s))->Some_0.0,
    ) + spec_dec_u8(s)->Some_0.1 by {
        assert(s =~= spec_enc_u8(s[0]) + s.skip(1));
    }
    assert forall|s: Seq<u8>| spec_dec_bool(s) is Some implies s == spec_enc_bool(
        (#[trigger] spec_dec_bool(s))->Some_0.0,
    ) + spec_dec_bool(s)->Some_0.1 by {
        let v = spec_dec_bool(s)->Some_0;
        assert(s =~= spec_enc_bool(v.0) + s.skip(1));
    }
    assert forall|s: Seq<u8>| spec_dec_u16(s) is Some implies s == spec_enc_u16(
        (#[trigger] spec_dec_u16(s))->Some_0.0,
    ) + spec_dec_u16(s)->Some_0.1 by {
        assert(spec_u16_to_le_bytes(spec_u16_from_le_bytes(s.take(2))) == s.take(2));
        assert(s =~= s.take(2) + s.skip(2));
    }
    assert forall|s: Seq<u8>| spec_dec_u32(s) is Some implies s == spec_enc_u32(
        (#[trigger] spec_dec_u32(s))->Some_0.0,
    ) + spec_dec_u32(s)->Some_0.1 by {
        assert(spec_u32_to_le_bytes(spec_u32_from_le_bytes(s.take(4))) == s.take(4));
        assert(s =~= s.take(4) + s.skip(4));
    }
    assert forall|s: Seq<u8>| spec_dec_u64(s) is Some implies s == spec_enc_u64(
        (#[trigger] spec_dec_u64(s))->Some_0.0,
    ) + spec_dec_u64(s)->Some_0.1 by {
        assert(spec_u64_to_le_bytes(spec_u64_from_le_bytes(s.take(8))) == s.take(8));
        assert(s =~= s.take(8) + s.skip(8));
    }
    assert forall|s: Seq<u8>| spec_dec_u128(s) is Some implies s == spec_enc_u128(
        (#[trigger] spec_dec_u128(s))->Some_0.0,
    ) + spec_dec_u128(s)->Some_0.1 by {
        assert(spec_u128_to_le_bytes(spec_u128_from_le_bytes(s.take(16))) == s.take(16));
        assert(s =~= s.take(16) + s.skip(16));
    }
    assert forall|s: Seq<u8>| spec_dec_i64(s) is Some implies s == spec_enc_i64(
        (#[trigger] spec_dec_i64(s))->Some_0.0,
    ) + spec_dec_i64(s)->Some_0.1 by {
        let x = spec_u64_from_le_bytes(s.take(8));
        assert(((x as i64) as u64) == x) by (bit_vector);
        assert(spec_u64_to_le_bytes(spec_u64_from_le_bytes(s.take(8))) == s.take(8));
        assert(s =~= s.take(8) + s.skip(8));
    }
    assert forall|s: Seq<u8>| spec_dec_pubkey(s) is Some implies s == spec_enc_pubkey(
        (#[trigger] spec_dec_pubkey(s))->Some_0.0,
    ) + spec_dec_pubkey(s)->Some_0.1 by {
        let a0 = spec_dec_u64(s)->Some_0;
        let a1 = spec_dec_u64(a0.1)->Some_0;
        let a2 = spec_dec_u64(a1.1)->Some_0;
        let a3 = spec_dec_u64(a2.1)->Some_0;
        assert(s == spec_enc_u64(a0.0) + a0.1);
        assert(a0.1 == spec_enc_u64(a1.0) + a1.1);
        assert(a1.1 == spec_enc_u64(a2.0) + a2.1);
        assert(a2.1 == spec_enc_u64(a3.0) + a3.1);
        assert(s =~= (spec_enc_u64(a0.0) + spec_enc_u64(a1.0)) + (spec_enc_u64(a2.0)
            + spec_enc_u64(a3.0)) + a3.1);
    }
}

} // verus!
