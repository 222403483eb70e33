//! Canonical byte encoding of the permit and fill-quote records.
//!
//! The signed surface of the exchange: envelopes and keeper quotes encode
//! deterministically so that two encoders produce byte-identical output.
//! Each type carries a specification encoder, a specification decoder
//! inverting it, and executable functions proved against the pair.

use vstd::prelude::*;

use crate::codec::dec_bool;
use crate::codec::dec_i64;
use crate::codec::dec_pubkey;
use crate::codec::dec_u128;
use crate::codec::dec_u16;
use crate::codec::dec_u64;
use crate::codec::dec_u8;
use crate::codec::enc_bool;
use crate::codec::enc_i64;
use crate::codec::enc_pubkey;
use crate::codec::enc_u128;
use crate::codec::enc_u16;
use crate::codec::enc_u64;
use crate::codec::enc_u8;
use crate::codec::lemma_prim_round_trip;
use crate::codec::spec_dec_bool;
use crate::codec::spec_dec_i64;
use crate::codec::spec_dec_pubkey;
use crate::codec::spec_dec_u128;
use crate::codec::spec_dec_u16;
use crate::codec::spec_dec_u64;
use crate::codec::spec_dec_u8;
use crate::codec::spec_enc_bool;
use crate::codec::spec_enc_i64;
use crate::codec::spec_enc_pubkey;
use crate::codec::spec_enc_u128;
use crate::codec::spec_enc_u16;
use crate::codec::spec_enc_u64;
use crate::codec::spec_enc_u8;
use crate::fill_quote::OffchainFillQuote;
use crate::keys::Pubkey;
use crate::order::OrderSide;
use crate::order::TimeInForce;
use crate::order_codec::dec_bytes_n;
use crate::order_codec::dec_order_side;
use crate::order_codec::dec_tif;
use crate::order_codec::enc_bytes_n;
use crate::order_codec::enc_order_side;
use crate::order_codec::enc_tif;
use crate::order_codec::lemma_app_assoc;
use crate::order_codec::lemma_arr_round_trip;
use crate::order_codec::lemma_order_side_round_trip;
use crate::order_codec::lemma_tif_round_trip;
use crate::order_codec::spec_dec_arr;
use crate::order_codec::spec_dec_order_side;
use crate::order_codec::spec_dec_tif;
use crate::order_codec::spec_enc_order_side;
use crate::order_codec::spec_enc_tif;
use crate::permit::ClusterType;
use crate::permit::HealthFloor;
use crate::permit::HealthMetric;
use crate::permit::KeyType;
use crate::permit::PermitAction;
use crate::permit::PermitDomain;
use crate::permit::PermitEnvelopeV1;
use crate::permit::ReplayMode;

verus! {

/// The canonical bytes of a `ClusterType`.
pub open spec fn spec_enc_cluster(x: ClusterType) -> Seq<u8> {
    match x {
        ClusterType::Mainnet => spec_enc_u8(0),
        ClusterType::Testnet => spec_enc_u8(1),
        ClusterType::Devnet => spec_enc_u8(2),
        ClusterType::Localnet => spec_enc_u8(3),
    }
}

/// Decode a `ClusterType`.
pub open spec fn spec_dec_cluster(s: Seq<u8>) -> Option<(ClusterType, Seq<u8>)> {
    match spec_dec_u8(s) {
        Some(t) =>
        if t.0 == 0 {
            Some((ClusterType::Mainnet, t.1))
        }
        else if t.0 == 1 {
            Some((ClusterType::Testnet, t.1))
        }
        else if t.0 == 2 {
            Some((ClusterType::Devnet, t.1))
        }
        else if t.0 == 3 {
            Some((ClusterType::Localnet, t.1))
        }
        else {
            None
        },
        None => None,
    }
}

/// Decoding inverts encoding for a `ClusterType`.
pub proof fn lemma_cluster_round_trip(x: ClusterType, rest: Seq<u8>)
    ensures
        spec_dec_cluster(spec_enc_cluster(x) + rest) == Some((x, rest)),
{
    lemma_prim_round_trip();
    match x {
        ClusterType::Mainnet => {
            assert(spec_enc_cluster(x) + rest =~= spec_enc_u8(0) + rest);
        },
        ClusterType::Testnet => {
            assert(spec_enc_cluster(x) + rest =~= spec_enc_u8(1) + rest);
        },
        ClusterType::Devnet => {
            assert(spec_enc_cluster(x) + rest =~= spec_enc_u8(2) + rest);
        },
        ClusterType::Localnet => {
            assert(spec_enc_cluster(x) + rest =~= spec_enc_u8(3) + rest);
        },
    }
}

/// Append a `ClusterType`.
pub fn enc_cluster(out: &mut Vec<u8>, x: &ClusterType)
    ensures
        final(out)@ == old(out)@ + spec_enc_cluster(*x),
{
    match x {
        ClusterType::Mainnet => {
            enc_u8(out, 0);
        },
        ClusterType::Testnet => {
            enc_u8(out, 1);
        },
        ClusterType::Devnet => {
            enc_u8(out, 2);
        },
        ClusterType::Localnet => {
            enc_u8(out, 3);
        },
    }
    proof {
        assert(final(out)@ =~= old(out)@ + spec_enc_cluster(*x));
    }
}

/// Read a `ClusterType` at `pos`.
pub fn dec_cluster(buf: &Vec<u8>, pos: usize) -> (r: Option<(ClusterType, usize)>)
    requires
        pos <= buf@.len(),
    ensures
        match r {
            Some(v) => pos <= v.1 <= buf@.len() && spec_dec_cluster(buf@.skip(pos as int)) == Some(
                (v.0, buf@.skip(v.1 as int)),
            ),
            None => spec_dec_cluster(buf@.skip(pos as int)) is None,
        },
{
    let t = match dec_u8(buf, pos) {
        Some(v) => v,
        None => { return None },
    };
        if t.0 == 0 {
            Some((ClusterType::Mainnet, t.1))
        }
        else if t.0 == 1 {
            Some((ClusterType::Testnet, t.1))
        }
        else if t.0 == 2 {
            Some((ClusterType::Devnet, t.1))
        }
        else if t.0 == 3 {
            Some((ClusterType::Localnet, t.1))
        }
    else {
        None
    }
}

/// The canonical bytes of a `KeyType`.
pub open spec fn spec_enc_key_type(x: KeyType) -> Seq<u8> {
    match x {
        KeyType::Ed25519 => spec_enc_u8(0),
        KeyType::Secp256k1 => spec_enc_u8(1),
    }
}

/// Decode a `KeyType`.
pub open spec fn spec_dec_key_type(s: Seq<u8>) -> Option<(KeyType, Seq<u8>)> {
    match spec_dec_u8(s) {
        Some(t) =>
        if t.0 == 0 {
            Some((KeyType::Ed25519, t.1))
        }
        else if t.0 == 1 {
            Some((KeyType::Secp256k1, t.1))
        }
        else {
            None
        },
        None => None,
    }
}

/// Decoding inverts encoding for a `KeyType`.
pub proof fn lemma_key_type_round_trip(x: KeyType, rest: Seq<u8>)
    ensures
        spec_dec_key_type(spec_enc_key_type(x) + rest) == Some((x, rest)),
{
    lemma_prim_round_trip();
    match x {
        KeyType::Ed25519 => {
            assert(spec_enc_key_type(x) + rest =~= spec_enc_u8(0) + rest);
        },
        KeyType::Secp256k1 => {
            assert(spec_enc_key_type(x) + rest =~= spec_enc_u8(1) + rest);
        },
    }
}

/// Append a `KeyType`.
pub fn enc_key_type(out: &mut Vec<u8>, x: &KeyType)
    ensures
        final(out)@ == old(out)@ + spec_enc_key_type(*x),
{
    match x {
        KeyType::Ed25519 => {
            enc_u8(out, 0);
        },
        KeyType::Secp256k1 => {
            enc_u8(out, 1);
        },
    }
    proof {
        assert(final(out)@ =~= old(out)@ + spec_enc_key_type(*x));
    }
}

/// Read a `KeyType` at `pos`.
pub fn dec_key_type(buf: &Vec<u8>, pos: usize) -> (r: Option<(KeyType, usize)>)
    requires
        pos <= buf@.len(),
    ensures
        match r {
            Some(v) => pos <= v.1 <= buf@.len() && spec_dec_key_type(buf@.skip(pos as int)) == Some(
                (v.0, buf@.skip(v.1 as int)),
            ),
            None => spec_dec_key_type(buf@.skip(pos as int)) is None,
        },
{
    let t = match dec_u8(buf, pos) {
        Some(v) => v,
        None => { return None },
    };
        if t.0 == 0 {
            Some((KeyType::Ed25519, t.1))
        }
        else if t.0 == 1 {
            Some((KeyType::Secp256k1, t.1))
        }
    else {
        None
    }
}

/// The canonical bytes of a `HealthMetric`.
pub open spec fn spec_enc_health_metric(x: HealthMetric) -> Seq<u8> {
    match x {
        HealthMetric::Initial => spec_enc_u8(0),
        HealthMetric::Maintenance => spec_enc_u8(1),
        HealthMetric::RatioBps => spec_enc_u8(2),
    }
}

/// Decode a `HealthMetric`.
pub open spec fn spec_dec_health_metric(s: Seq<u8>) -> Option<(HealthMetric, Seq<u8>)> {
    match spec_dec_u8(s) {
        Some(t) =>
        if t.0 == 0 {
            Some((HealthMetric::Initial, t.1))
        }
        else if t.0 == 1 {
            Some((HealthMetric::Maintenance, t.1))
        }
        else if t.0 == 2 {
            Some((HealthMetric::RatioBps, t.1))
        }
        else {
            None
        },
        None => None,
    }
}

/// Decoding inverts encoding for a `HealthMetric`.
pub proof fn lemma_health_metric_round_trip(x: HealthMetric, rest: Seq<u8>)
    ensures
        spec_dec_health_metric(spec_enc_health_metric(x) + rest) == Some((x, rest)),
{
    lemma_prim_round_trip();
    match x {
        HealthMetric::Initial => {
            assert(spec_enc_health_metric(x) + rest =~= spec_enc_u8(0) + rest);
        },
        HealthMetric::Maintenance => {
            assert(spec_enc_health_metric(x) + rest =~= spec_enc_u8(1) + rest);
        },
        HealthMetric::RatioBps => {
            assert(spec_enc_health_metric(x) + rest =~= spec_enc_u8(2) + rest);
        },
    }
}

/// Append a `HealthMetric`.
pub fn enc_health_metric(out: &mut Vec<u8>, x: &HealthMetric)
    ensures
        final(out)@ == old(out)@ + spec_enc_health_metric(*x),
{
    match x {
        HealthMetric::Initial => {
            enc_u8(out, 0);
        },
        HealthMetric::Maintenance => {
            enc_u8(out, 1);
        },
        HealthMetric::RatioBps => {
            enc_u8(out, 2);
        },
    }
    proof {
        assert(final(out)@ =~= old(out)@ + spec_enc_health_metric(*x));
    }
}

/// Read a `HealthMetric` at `pos`.
pub fn dec_health_metric(buf: &Vec<u8>, pos: usize) -> (r: Option<(HealthMetric, usize)>)
    requires
        pos <= buf@.len(),
    ensures
        match r {
            Some(v) => pos <= v.1 <= buf@.len() && spec_dec_health_metric(buf@.skip(pos as int)) == Some(
                (v.0, buf@.skip(v.1 as int)),
            ),
            None => spec_dec_health_metric(buf@.skip(pos as int)) is None,
        },
{
    let t = match dec_u8(buf, pos) {
        Some(v) => v,
        None => { return None },
    };
        if t.0 == 0 {
            Some((HealthMetric::Initial, t.1))
        }
        else if t.0 == 1 {
            Some((HealthMetric::Maintenance, t.1))
        }
        else if t.0 == 2 {
            Some((HealthMetric::RatioBps, t.1))
        }
    else {
        None
    }
}

/// The canonical bytes of a `HealthFloor`.
pub open spec fn spec_enc_health_floor(x: HealthFloor) -> Seq<u8> {
    spec_enc_health_metric(x.metric) + spec_enc_i64(x.min)
}

/// Decode a `HealthFloor`.
pub open spec fn spec_dec_health_floor(s: Seq<u8>) -> Option<(HealthFloor, Seq<u8>)> {
    match spec_dec_health_metric(s) {
            Some(a0) => match spec_dec_i64(a0.1) {
            Some(a1) => Some(((HealthFloor { metric: a0.0, min: a1.0 }), a1.1)),
            None => None,
        },
            None => None,
        }
}

/// Decoding inverts encoding for a `HealthFloor`.
pub proof fn lemma_health_floor_round_trip(x: HealthFloor, rest: Seq<u8>)
    ensures
        spec_dec_health_floor(spec_enc_health_floor(x) + rest) == Some((x, rest)),
{
    lemma_prim_round_trip();
    let t1 = spec_enc_i64(x.min) + rest;
    let t0 = spec_enc_health_metric(x.metric) + t1;
    assert(spec_enc_health_floor(x) + rest =~= t0);
    lemma_health_metric_round_trip(x.metric, t1);
}

/// Append a `HealthFloor`.
pub fn enc_health_floor(out: &mut Vec<u8>, x: &HealthFloor)
    ensures
        final(out)@ == old(out)@ + spec_enc_health_floor(*x),
{
    enc_health_metric(out, &x.metric);
    enc_i64(out, x.min);
    proof {
        assert(final(out)@ =~= old(out)@ + spec_enc_health_floor(*x));
    }
}

/// Read a `HealthFloor` at `pos`.
pub fn dec_health_floor(buf: &Vec<u8>, pos: usize) -> (r: Option<(HealthFloor, usize)>)
    requires
        pos <= buf@.len(),
    ensures
        match r {
            Some(v) => pos <= v.1 <= buf@.len() && spec_dec_health_floor(buf@.skip(pos as int)) == Some(
                (v.0, buf@.skip(v.1 as int)),
            ),
            None => spec_dec_health_floor(buf@.skip(pos as int)) is None,
        },
{
    let a0 = match dec_health_metric(buf, pos) {
        Some(v) => v,
        None => { return None },
    };
    let a1 = match dec_i64(buf, a0.1) {
        Some(v) => v,
        None => { return None },
    };
    Some((HealthFloor { metric: a0.0, min: a1.0 }, a1.1))
}

/// The canonical bytes of an optional `u64`: a zero byte for absent, a
/// one byte and the value for present.
pub open spec fn spec_enc_opt_u64(x: Option<u64>) -> Seq<u8> {
    match x {
        None => spec_enc_u8(0),
        Some(v) => spec_enc_u8(1) + spec_enc_u64(v),
    }
}

/// Decode an optional `u64`.
pub open spec fn spec_dec_opt_u64(s: Seq<u8>) -> Option<(Option<u64>, Seq<u8>)> {
    match spec_dec_u8(s) {
        Some(t) => if t.0 == 0 {
            Some((None::<u64>, t.1))
        } else if t.0 == 1 {
            match spec_dec_u64(t.1) {
                Some(a0) => Some((Some(a0.0), a0.1)),
                None => None,
            }
        } else {
            None
        },
        None => None,
    }
}

/// Decoding inverts encoding for an optional `u64`.
pub proof fn lemma_opt_u64_round_trip(x: Option<u64>, rest: Seq<u8>)
    ensures
        spec_dec_opt_u64(spec_enc_opt_u64(x) + rest) == Some((x, rest)),
{
    lemma_prim_round_trip();
    match x {
        None => {
            assert(spec_enc_opt_u64(x) + rest =~= spec_enc_u8(0) + rest);
        },
        Some(a0) => {
            let t0 = spec_enc_u64(a0) + rest;
            assert(spec_enc_opt_u64(x) + rest =~= spec_enc_u8(1) + t0);
        },
    }
}

/// Append an optional `u64`.
pub fn enc_opt_u64(out: &mut Vec<u8>, x: &Option<u64>)
    ensures
        final(out)@ == old(out)@ + spec_enc_opt_u64(*x),
{
    match x {
        None => enc_u8(out, 0),
        Some(v) => {
            enc_u8(out, 1);
            enc_u64(out, *v);
        },
    }
    proof {
        assert(final(out)@ =~= old(out)@ + spec_enc_opt_u64(*x));
    }
}

/// Read an optional `u64` at `pos`.
pub fn dec_opt_u64(buf: &Vec<u8>, pos: usize) -> (r: Option<(Option<u64>, usize)>)
    requires
        pos <= buf@.len(),
    ensures
        match r {
            Some(v) => pos <= v.1 <= buf@.len() && spec_dec_opt_u64(buf@.skip(pos as int)) == Some(
                (v.0, buf@.skip(v.1 as int)),
            ),
            None => spec_dec_opt_u64(buf@.skip(pos as int)) is None,
        },
{
    let t = match dec_u8(buf, pos) {
        Some(v) => v,
        None => { return None },
    };
    if t.0 == 0 {
        Some((None, t.1))
    } else if t.0 == 1 {
        match dec_u64(buf, t.1) {
            Some(a0) => Some((Some(a0.0), a0.1)),
            None => None,
        }
    } else {
        None
    }
}

/// The canonical bytes of an optional `HealthFloor`.
pub open spec fn spec_enc_opt_health_floor(x: Option<HealthFloor>) -> Seq<u8> {
    match x {
        None => spec_enc_u8(0),
        Some(v) => spec_enc_u8(1) + spec_enc_health_floor(v),
    }
}

/// Decode an optional `HealthFloor`.
pub open spec fn spec_dec_opt_health_floor(s: Seq<u8>) -> Option<(Option<HealthFloor>, Seq<u8>)> {
    match spec_dec_u8(s) {
        Some(t) => if t.0 == 0 {
            Some((None::<HealthFloor>, t.1))
        } else if t.0 == 1 {
            match spec_dec_health_floor(t.1) {
                Some(a0) => Some((Some(a0.0), a0.1)),
                None => None,
            }
        } else {
            None
        },
        None => None,
    }
}

/// Decoding inverts encoding for an optional `HealthFloor`.
pub proof fn lemma_opt_health_floor_round_trip(x: Option<HealthFloor>, rest: Seq<u8>)
    ensures
        spec_dec_opt_health_floor(spec_enc_opt_health_floor(x) + rest) == Some((x, rest)),
{
    lemma_prim_round_trip();
    match x {
        None => {
            assert(spec_enc_opt_health_floor(x) + rest =~= spec_enc_u8(0) + rest);
        },
        Some(a0) => {
            let t0 = spec_enc_health_floor(a0) + rest;
            assert(spec_enc_opt_health_floor(x) + rest =~= spec_enc_u8(1) + t0);
            lemma_health_floor_round_trip(a0, rest);
        },
    }
}

/// Append an optional `HealthFloor`.
pub fn enc_opt_health_floor(out: &mut Vec<u8>, x: &Option<HealthFloor>)
    ensures
        final(out)@ == old(out)@ + spec_enc_opt_health_floor(*x),
{
    match x {
        None => enc_u8(out, 0),
        Some(v) => {
            enc_u8(out, 1);
            enc_health_floor(out, v);
        },
    }
    proof {
        assert(final(out)@ =~= old(out)@ + spec_enc_opt_health_floor(*x));
    }
}

/// Read an optional `HealthFloor` at `pos`.
pub fn dec_opt_health_floor(buf: &Vec<u8>, pos: usize) -> (r: Option<(Option<HealthFloor>, usize)>)
    requires
        pos <= buf@.len(),
    ensures
        match r {
            Some(v) => pos <= v.1 <= buf@.len() && spec_dec_opt_health_floor(
                buf@.skip(pos as int),
            ) == Some((v.0, buf@.skip(v.1 as int))),
            None => spec_dec_opt_health_floor(buf@.skip(pos as int)) is None,
        },
{
    let t = match dec_u8(buf, pos) {
        Some(v) => v,
        None => { return None },
    };
    if t.0 == 0 {
        Some((None, t.1))
    } else if t.0 == 1 {
        match dec_health_floor(buf, t.1) {
            Some(a0) => Some((Some(a0.0), a0.1)),
            None => None,
        }
    } else {
        None
    }
}

/// The canonical bytes of an optional key.
pub open spec fn spec_enc_opt_pubkey(x: Option<Pubkey>) -> Seq<u8> {
    match x {
        None => spec_enc_u8(0),
        Some(v) => spec_enc_u8(1) + spec_enc_pubkey(v),
    }
}

/// Decode an optional key.
pub open spec fn spec_dec_opt_pubkey(s: Seq<u8>) -> Option<(Option<Pubkey>, Seq<u8>)> {
    match spec_dec_u8(s) {
        Some(t) => if t.0 == 0 {
            Some((None::<Pubkey>, t.1))
        } else if t.0 == 1 {
            match spec_dec_pubkey(t.1) {
                Some(a0) => Some((Some(a0.0), a0.1)),
                None => None,
            }
        } else {
            None
        },
        None => None,
    }
}

/// Decoding inverts encoding for an optional key.
pub proof fn lemma_opt_pubkey_round_trip(x: Option<Pubkey>, rest: Seq<u8>)
    ensures
        spec_dec_opt_pubkey(spec_enc_opt_pubkey(x) + rest) == Some((x, rest)),
{
    lemma_prim_round_trip();
    match x {
        None => {
            assert(spec_enc_opt_pubkey(x) + rest =~= spec_enc_u8(0) + rest);
        },
        Some(a0) => {
            let t0 = spec_enc_pubkey(a0) + rest;
            assert(spec_enc_opt_pubkey(x) + rest =~= spec_enc_u8(1) + t0);
        },
    }
}

/// Append an optional key.
pub fn enc_opt_pubkey(out: &mut Vec<u8>, x: &Option<Pubkey>)
    ensures
        final(out)@ == old(out)@ + spec_enc_opt_pubkey(*x),
{
    match x {
        None => enc_u8(out, 0),
        Some(v) => {
            enc_u8(out, 1);
            enc_pubkey(out, v);
        },
    }
    proof {
        assert(final(out)@ =~= old(out)@ + spec_enc_opt_pubkey(*x));
    }
}

/// Read an optional key at `pos`.
pub fn dec_opt_pubkey(buf: &Vec<u8>, pos: usize) -> (r: Option<(Option<Pubkey>, usize)>)
    requires
        pos <= buf@.len(),
    ensures
        match r {
            Some(v) => pos <= v.1 <= buf@.len() && spec_dec_opt_pubkey(buf@.skip(pos as int))
                == Some((v.0, buf@.skip(v.1 as int))),
            None => spec_dec_opt_pubkey(buf@.skip(pos as int)) is None,
        },
{
    let t = match dec_u8(buf, pos) {
        Some(v) => v,
        None => { return None },
    };
    if t.0 == 0 {
        Some((None, t.1))
    } else if t.0 == 1 {
        match dec_pubkey(buf, t.1) {
            Some(a0) => Some((Some(a0.0), a0.1)),
            None => None,
        }
    } else {
        None
    }
}

/// The canonical bytes of a `PermitDomain`.
pub open spec fn spec_enc_permit_domain(x: PermitDomain) -> Seq<u8> {
    spec_enc_pubkey(x.program_id) + spec_enc_cluster(x.cluster) + spec_enc_u8(x.version)
}

/// Decode a `PermitDomain`.
pub open spec fn spec_dec_permit_domain(s: Seq<u8>) -> Option<(PermitDomain, Seq<u8>)> {
    match spec_dec_pubkey(s) {
            Some(a0) => match spec_dec_cluster(a0.1) {
            Some(a1) => match spec_dec_u8(a1.1) {
            Some(a2) => Some(((PermitDomain { program_id: a0.0, cluster: a1.0, version: a2.0 }), a2.1)),
            None => None,
        },
            None => None,
        },
            None => None,
        }
}

/// Decoding inverts encoding for a `PermitDomain`.
pub proof fn lemma_permit_domain_round_trip(x: PermitDomain, rest: Seq<u8>)
    ensures
        spec_dec_permit_domain(spec_enc_permit_domain(x) + rest) == Some((x, rest)),
{
    lemma_prim_round_trip();
    let t2 = spec_enc_u8(x.version) + rest;
    let t1 = spec_enc_cluster(x.cluster) + t2;
    let t0 = spec_enc_pubkey(x.program_id) + t1;
    assert(spec_enc_permit_domain(x) + rest =~= t0);
    lemma_cluster_round_trip(x.cluster, t2);
}

/// Append a `PermitDomain`.
pub fn enc_permit_domain(out: &mut Vec<u8>, x: &PermitDomain)
    ensures
        final(out)@ == old(out)@ + spec_enc_permit_domain(*x),
{
    enc_pubkey(out, &x.program_id);
    enc_cluster(out, &x.cluster);
    enc_u8(out, x.version);
    proof {
        assert(final(out)@ =~= old(out)@ + spec_enc_permit_domain(*x));
    }
}

/// Read a `PermitDomain` at `pos`.
pub fn dec_permit_domain(buf: &Vec<u8>, pos: usize) -> (r: Option<(PermitDomain, usize)>)
    requires
        pos <= buf@.len(),
    ensures
        match r {
            Some(v) => pos <= v.1 <= buf@.len() && spec_dec_permit_domain(buf@.skip(pos as int)) == Some(
                (v.0, buf@.skip(v.1 as int)),
            ),
            None => spec_dec_permit_domain(buf@.skip(pos as int)) is None,
        },
{
    let a0 = match dec_pubkey(buf, pos) {
        Some(v) => v,
        None => { return None },
    };
    let a1 = match dec_cluster(buf, a0.1) {
        Some(v) => v,
        None => { return None },
    };
    let a2 = match dec_u8(buf, a1.1) {
        Some(v) => v,
        None => { return None },
    };
    Some((PermitDomain { program_id: a0.0, cluster: a1.0, version: a2.0 }, a2.1))
}

/// The canonical bytes of a `ReplayMode`.
pub open spec fn spec_enc_replay_mode(x: ReplayMode) -> Seq<u8> {
    match x {
        ReplayMode::Sequence(a0) => spec_enc_u8(0) + spec_enc_u64(a0),
        ReplayMode::Nonce(a0) => spec_enc_u8(1) + a0@,
        ReplayMode::Allowance(a0) => spec_enc_u8(2) + a0@,
        ReplayMode::HlWindow { k: a0 } => spec_enc_u8(3) + spec_enc_u8(a0),
    }
}

/// Decode a `ReplayMode`.
pub open spec fn spec_dec_replay_mode(s: Seq<u8>) -> Option<(ReplayMode, Seq<u8>)> {
    match spec_dec_u8(s) {
        Some(t) =>
        if t.0 == 0 {
            match spec_dec_u64(t.1) {
            Some(a0) => Some((ReplayMode::Sequence(a0.0), a0.1)),
            None => None,
        }
        }
        else if t.0 == 1 {
            match spec_dec_arr::<32>(t.1) {
            Some(a0) => Some((ReplayMode::Nonce(a0.0), a0.1)),
            None => None,
        }
        }
        else if t.0 == 2 {
            match spec_dec_arr::<32>(t.1) {
            Some(a0) => Some((ReplayMode::Allowance(a0.0), a0.1)),
            None => None,
        }
        }
        else if t.0 == 3 {
            match spec_dec_u8(t.1) {
            Some(a0) => Some(((ReplayMode::HlWindow { k: a0.0 }), a0.1)),
            None => None,
        }
        }
        else {
            None
        },
        None => None,
    }
}

/// Decoding inverts encoding for a `ReplayMode`.
pub proof fn lemma_replay_mode_round_trip(x: ReplayMode, rest: Seq<u8>)
    ensures
        spec_dec_replay_mode(spec_enc_replay_mode(x) + rest) == Some((x, rest)),
{
    lemma_prim_round_trip();
    match x {
        ReplayMode::Sequence(a0) => {
            let t0 = spec_enc_u64(a0) + rest;
            assert(spec_enc_replay_mode(x) + rest =~= spec_enc_u8(0) + t0);
        },
        ReplayMode::Nonce(a0) => {
            let t0 = a0@ + rest;
            assert(spec_enc_replay_mode(x) + rest =~= spec_enc_u8(1) + t0);
            lemma_arr_round_trip::<32>(a0, rest);
        },
        ReplayMode::Allowance(a0) => {
            let t0 = a0@ + rest;
            assert(spec_enc_replay_mode(x) + rest =~= spec_enc_u8(2) + t0);
            lemma_arr_round_trip::<32>(a0, rest);
        },
        ReplayMode::HlWindow { k: a0 } => {
            let t0 = spec_enc_u8(a0) + rest;
            assert(spec_enc_replay_mode(x) + rest =~= spec_enc_u8(3) + t0);
        },
    }
}

/// Append a `ReplayMode`.
pub fn enc_replay_mode(out: &mut Vec<u8>, x: &ReplayMode)
    ensures
        final(out)@ == old(out)@ + spec_enc_replay_mode(*x),
{
    match x {
        ReplayMode::Sequence(a0) => {
            enc_u8(out, 0);
            enc_u64(out, *a0);
        },
        ReplayMode::Nonce(a0) => {
            enc_u8(out, 1);
            enc_bytes_n(out, a0);
        },
        ReplayMode::Allowance(a0) => {
            enc_u8(out, 2);
            enc_bytes_n(out, a0);
        },
        ReplayMode::HlWindow { k: a0 } => {
            enc_u8(out, 3);
            enc_u8(out, *a0);
        },
    }
    proof {
        assert(final(out)@ =~= old(out)@ + spec_enc_replay_mode(*x));
    }
}

/// Read a `ReplayMode` at `pos`.
pub fn dec_replay_mode(buf: &Vec<u8>, pos: usize) -> (r: Option<(ReplayMode, usize)>)
    requires
        pos <= buf@.len(),
    ensures
        match r {
            Some(v) => pos <= v.1 <= buf@.len() && spec_dec_replay_mode(buf@.skip(pos as int)) == Some(
                (v.0, buf@.skip(v.1 as int)),
            ),
            None => spec_dec_replay_mode(buf@.skip(pos as int)) is None,
        },
{
    let t = match dec_u8(buf, pos) {
        Some(v) => v,
        None => { return None },
    };
        if t.0 == 0 {
            let a0 = match dec_u64(buf, t.1) {
                Some(v) => v,
                None => { return None },
            };
            Some((ReplayMode::Sequence(a0.0), a0.1))
        }
        else if t.0 == 1 {
            let a0 = match dec_bytes_n::<32>(buf, t.1) {
                Some(v) => v,
                None => { return None },
            };
            Some((ReplayMode::Nonce(a0.0), a0.1))
        }
        else if t.0 == 2 {
            let a0 = match dec_bytes_n::<32>(buf, t.1) {
                Some(v) => v,
                None => { return None },
            };
            Some((ReplayMode::Allowance(a0.0), a0.1))
        }
        else if t.0 == 3 {
            let a0 = match dec_u8(buf, t.1) {
                Some(v) => v,
                None => { return None },
            };
            Some(((ReplayMode::HlWindow { k: a0.0 }), a0.1))
        }
    else {
        None
    }
}

/// The canonical bytes of a `PermitAction`.
pub open spec fn spec_enc_permit_action(x: PermitAction) -> Seq<u8> {
    match x {
        PermitAction::Place { market_id: a0, client_id: a1, side: a2, qty: a3, price: a4, tif: a5, reduce_only: a6, trigger_price: a7, trigger_type: a8, health_floor: a9 } => spec_enc_u8(0) + spec_enc_u64(a0) + spec_enc_u128(a1) + spec_enc_u8(a2) + spec_enc_u64(a3) + spec_enc_opt_u64(a4) + spec_enc_tif(a5) + spec_enc_bool(a6) + spec_enc_opt_u64(a7) + spec_enc_u8(a8) + spec_enc_opt_health_floor(a9),
        PermitAction::CancelById { market_id: a0, order_id: a1 } => spec_enc_u8(1) + spec_enc_u64(a0) + spec_enc_u64(a1),
        PermitAction::CancelByClientId { market_id: a0, client_id: a1 } => spec_enc_u8(2) + spec_enc_u64(a0) + spec_enc_u128(a1),
        PermitAction::CancelAll { market_id: a0 } => spec_enc_u8(3) + spec_enc_opt_u64(a0),
        PermitAction::Modify { market_id: a0, cancel_order_id: a1, new_client_id: a2, side: a3, qty: a4, price: a5, tif: a6, reduce_only: a7, trigger_price: a8, trigger_type: a9, health_floor: a10 } => spec_enc_u8(4) + spec_enc_u64(a0) + spec_enc_u64(a1) + spec_enc_u128(a2) + spec_enc_u8(a3) + spec_enc_u64(a4) + spec_enc_opt_u64(a5) + spec_enc_tif(a6) + spec_enc_bool(a7) + spec_enc_opt_u64(a8) + spec_enc_u8(a9) + spec_enc_opt_health_floor(a10),
        PermitAction::Withdraw { amount: a0, to_owner: a1, health_floor: a2 } => spec_enc_u8(5) + spec_enc_u64(a0) + spec_enc_pubkey(a1) + spec_enc_opt_health_floor(a2),
        PermitAction::SetLeverage { market_id: a0, target_leverage_bps: a1, health_floor: a2 } => spec_enc_u8(6) + spec_enc_u64(a0) + spec_enc_u16(a1) + spec_enc_opt_health_floor(a2),
        PermitAction::Noop => spec_enc_u8(7),
        PermitAction::Faucet { market_id: a0, amount: a1, recipient: a2 } => spec_enc_u8(8) + spec_enc_u64(a0) + spec_enc_u64(a1) + spec_enc_pubkey(a2),
    }
}

/// Decode a `PermitAction`.
pub open spec fn spec_dec_permit_action(s: Seq<u8>) -> Option<(PermitAction, Seq<u8>)> {
    match spec_dec_u8(s) {
        Some(t) =>
        if t.0 == 0 {
            match spec_dec_u64(t.1) {
            Some(a0) => match spec_dec_u128(a0.1) {
            Some(a1) => match spec_dec_u8(a1.1) {
            Some(a2) => match spec_dec_u64(a2.1) {
            Some(a3) => match spec_dec_opt_u64(a3.1) {
            Some(a4) => match spec_dec_tif(a4.1) {
            Some(a5) => match spec_dec_bool(a5.1) {
            Some(a6) => match spec_dec_opt_u64(a6.1) {
            Some(a7) => match spec_dec_u8(a7.1) {
            Some(a8) => match spec_dec_opt_health_floor(a8.1) {
            Some(a9) => Some(((PermitAction::Place { market_id: a0.0, client_id: a1.0, side: a2.0, qty: a3.0, price: a4.0, tif: a5.0, reduce_only: a6.0, trigger_price: a7.0, trigger_type: a8.0, health_floor: a9.0 }), a9.1)),
            None => None,
        },
            None => None,
        },
            None => None,
        },
            None => None,
        },
            None => None,
        },
            None => None,
        },
            None => None,
        },
            None => None,
        },
            None => None,
        },
            None => None,
        }
        }
        else if t.0 == 1 {
            match spec_dec_u64(t.1) {
            Some(a0) => match spec_dec_u64(a0.1) {
            Some(a1) => Some(((PermitAction::CancelById { market_id: a0.0, order_id: a1.0 }), a1.1)),
            None => None,
        },
            None => None,
        }
        }
        else if t.0 == 2 {
            match spec_dec_u64(t.1) {
            Some(a0) => match spec_dec_u128(a0.1) {
            Some(a1) => Some(((PermitAction::CancelByClientId { market_id: a0.0, client_id: a1.0 }), a1.1)),
            None => None,
        },
            None => None,
        }
        }
        else if t.0 == 3 {
            match spec_dec_opt_u64(t.1) {
            Some(a0) => Some(((PermitAction::CancelAll { market_id: a0.0 }), a0.1)),
            None => None,
        }
        }
        else if t.0 == 4 {
            match spec_dec_u64(t.1) {
            Some(a0) => match spec_dec_u64(a0.1) {
            Some(a1) => match spec_dec_u128(a1.1) {
            Some(a2) => match spec_dec_u8(a2.1) {
            Some(a3) => match spec_dec_u64(a3.1) {
            Some(a4) => match spec_dec_opt_u64(a4.1) {
            Some(a5) => match spec_dec_tif(a5.1) {
            Some(a6) => match spec_dec_bool(a6.1) {
            Some(a7) => match spec_dec_opt_u64(a7.1) {
            Some(a8) => match spec_dec_u8(a8.1) {
            Some(a9) => match spec_dec_opt_health_floor(a9.1) {
            Some(a10) => Some(((PermitAction::Modify { market_id: a0.0, cancel_order_id: a1.0, new_client_id: a2.0, side: a3.0, qty: a4.0, price: a5.0, tif: a6.0, reduce_only: a7.0, trigger_price: a8.0, trigger_type: a9.0, health_floor: a10.0 }), a10.1)),
            None => None,
        },
            None => None,
        },
            None => None,
        },
            None => None,
        },
            None => None,
        },
            None => None,
        },
            None => None,
        },
            None => None,
        },
            None => None,
        },
            None => None,
        },
            None => None,
        }
        }
        else if t.0 == 5 {
            match spec_dec_u64(t.1) {
            Some(a0) => match spec_dec_pubkey(a0.1) {
            Some(a1) => match spec_dec_opt_health_floor(a1.1) {
            Some(a2) => Some(((PermitAction::Withdraw { amount: a0.0, to_owner: a1.0, health_floor: a2.0 }), a2.1)),
            None => None,
        },
            None => None,
        },
            None => None,
        }
        }
        else if t.0 == 6 {
            match spec_dec_u64(t.1) {
            Some(a0) => match spec_dec_u16(a0.1) {
            Some(a1) => match spec_dec_opt_health_floor(a1.1) {
            Some(a2) => Some(((PermitAction::SetLeverage { market_id: a0.0, target_leverage_bps: a1.0, health_floor: a2.0 }), a2.1)),
            None => None,
        },
            None => None,
        },
            None => None,
        }
        }
        else if t.0 == 7 {
            Some((PermitAction::Noop, t.1))
        }
        else if t.0 == 8 {
            match spec_dec_u64(t.1) {
            Some(a0) => match spec_dec_u64(a0.1) {
            Some(a1) => match spec_dec_pubkey(a1.1) {
            Some(a2) => Some(((PermitAction::Faucet { market_id: a0.0, amount: a1.0, recipient: a2.0 }), a2.1)),
            None => None,
        },
            None => None,
        },
            None => None,
        }
        }
        else {
            None
        },
        None => None,
    }
}

/// Decoding inverts encoding for a `PermitAction`.
#[verifier::rlimit(100)]
#[verifier::spinoff_prover]
pub proof fn lemma_permit_action_round_trip(x: PermitAction, rest: Seq<u8>)
    ensures
        spec_dec_permit_action(spec_enc_permit_action(x) + rest) == Some((x, rest)),
{
    lemma_prim_round_trip();
    match x {
        PermitAction::Place { market_id: a0, client_id: a1, side: a2, qty: a3, price: a4, tif: a5, reduce_only: a6, trigger_price: a7, trigger_type: a8, health_floor: a9 } => {
            let t9 = spec_enc_opt_health_floor(a9) + rest;
            let t8 = spec_enc_u8(a8) + t9;
            let t7 = spec_enc_opt_u64(a7) + t8;
            let t6 = spec_enc_bool(a6) + t7;
            let t5 = spec_enc_tif(a5) + t6;
            let t4 = spec_enc_opt_u64(a4) + t5;
            let t3 = spec_enc_u64(a3) + t4;
            let t2 = spec_enc_u8(a2) + t3;
            let t1 = spec_enc_u128(a1) + t2;
            let t0 = spec_enc_u64(a0) + t1;
            assert(spec_enc_permit_action(x) == ((((((((((spec_enc_u8(0) + spec_enc_u64(a0)) + spec_enc_u128(a1)) + spec_enc_u8(a2)) + spec_enc_u64(a3)) + spec_enc_opt_u64(a4)) + spec_enc_tif(a5)) + spec_enc_bool(a6)) + spec_enc_opt_u64(a7)) + spec_enc_u8(a8)) + spec_enc_opt_health_floor(a9)));
            lemma_app_assoc((((((((((spec_enc_u8(0) + spec_enc_u64(a0)) + spec_enc_u128(a1)) + spec_enc_u8(a2)) + spec_enc_u64(a3)) + spec_enc_opt_u64(a4)) + spec_enc_tif(a5)) + spec_enc_bool(a6)) + spec_enc_opt_u64(a7)) + spec_enc_u8(a8)), spec_enc_opt_health_floor(a9), rest);
            lemma_app_assoc(((((((((spec_enc_u8(0) + spec_enc_u64(a0)) + spec_enc_u128(a1)) + spec_enc_u8(a2)) + spec_enc_u64(a3)) + spec_enc_opt_u64(a4)) + spec_enc_tif(a5)) + spec_enc_bool(a6)) + spec_enc_opt_u64(a7)), spec_enc_u8(a8), t9);
            lemma_app_assoc((((((((spec_enc_u8(0) + spec_enc_u64(a0)) + spec_enc_u128(a1)) + spec_enc_u8(a2)) + spec_enc_u64(a3)) + spec_enc_opt_u64(a4)) + spec_enc_tif(a5)) + spec_enc_bool(a6)), spec_enc_opt_u64(a7), t8);
            lemma_app_assoc(((((((spec_enc_u8(0) + spec_enc_u64(a0)) + spec_enc_u128(a1)) + spec_enc_u8(a2)) + spec_enc_u64(a3)) + spec_enc_opt_u64(a4)) + spec_enc_tif(a5)), spec_enc_bool(a6), t7);
            lemma_app_assoc((((((spec_enc_u8(0) + spec_enc_u64(a0)) + spec_enc_u128(a1)) + spec_enc_u8(a2)) + spec_enc_u64(a3)) + spec_enc_opt_u64(a4)), spec_enc_tif(a5), t6);
            lemma_app_assoc(((((spec_enc_u8(0) + spec_enc_u64(a0)) + spec_enc_u128(a1)) + spec_enc_u8(a2)) + spec_enc_u64(a3)), spec_enc_opt_u64(a4), t5);
            lemma_app_assoc((((spec_enc_u8(0) + spec_enc_u64(a0)) + spec_enc_u128(a1)) + spec_enc_u8(a2)), spec_enc_u64(a3), t4);
            lemma_app_assoc(((spec_enc_u8(0) + spec_enc_u64(a0)) + spec_enc_u128(a1)), spec_enc_u8(a2), t3);
            lemma_app_assoc((spec_enc_u8(0) + spec_enc_u64(a0)), spec_enc_u128(a1), t2);
            lemma_app_assoc(spec_enc_u8(0), spec_enc_u64(a0), t1);
            assert(spec_enc_permit_action(x) + rest == spec_enc_u8(0) + t0);
            assert(spec_dec_u64(t0) == Some((a0, t1)));
            assert(spec_dec_u128(t1) == Some((a1, t2)));
            assert(spec_dec_u8(t2) == Some((a2, t3)));
            assert(spec_dec_u64(t3) == Some((a3, t4)));
            lemma_opt_u64_round_trip(a4, t5);
            assert(spec_dec_opt_u64(t4) == Some((a4, t5)));
            lemma_tif_round_trip(a5, t6);
            assert(spec_dec_tif(t5) == Some((a5, t6)));
            assert(spec_dec_bool(t6) == Some((a6, t7)));
            lemma_opt_u64_round_trip(a7, t8);
            assert(spec_dec_opt_u64(t7) == Some((a7, t8)));
            assert(spec_dec_u8(t8) == Some((a8, t9)));
            lemma_opt_health_floor_round_trip(a9, rest);
            assert(spec_dec_opt_health_floor(t9) == Some((a9, rest)));
        },
        PermitAction::CancelById { market_id: a0, order_id: a1 } => {
            let t1 = spec_enc_u64(a1) + rest;
            let t0 = spec_enc_u64(a0) + t1;
            assert(spec_enc_permit_action(x) == ((spec_enc_u8(1) + spec_enc_u64(a0)) + spec_enc_u64(a1)));
            lemma_app_assoc((spec_enc_u8(1) + spec_enc_u64(a0)), spec_enc_u64(a1), rest);
            lemma_app_assoc(spec_enc_u8(1), spec_enc_u64(a0), t1);
            assert(spec_enc_permit_action(x) + rest == spec_enc_u8(1) + t0);
            assert(spec_dec_u64(t0) == Some((a0, t1)));
            assert(spec_dec_u64(t1) == Some((a1, rest)));
        },
        PermitAction::CancelByClientId { market_id: a0, client_id: a1 } => {
            let t1 = spec_enc_u128(a1) + rest;
            let t0 = spec_enc_u64(a0) + t1;
            assert(spec_enc_permit_action(x) == ((spec_enc_u8(2) + spec_enc_u64(a0)) + spec_enc_u128(a1)));
            lemma_app_assoc((spec_enc_u8(2) + spec_enc_u64(a0)), spec_enc_u128(a1), rest);
            lemma_app_assoc(spec_enc_u8(2), spec_enc_u64(a0), t1);
            assert(spec_enc_permit_action(x) + rest == spec_enc_u8(2) + t0);
            assert(spec_dec_u64(t0) == Some((a0, t1)));
            assert(spec_dec_u128(t1) == Some((a1, rest)));
        },
        PermitAction::CancelAll { market_id: a0 } => {
            let t0 = spec_enc_opt_u64(a0) + rest;
            assert(spec_enc_permit_action(x) == (spec_enc_u8(3) + spec_enc_opt_u64(a0)));
            lemma_app_assoc(spec_enc_u8(3), spec_enc_opt_u64(a0), rest);
            assert(spec_enc_permit_action(x) + rest == spec_enc_u8(3) + t0);
            lemma_opt_u64_round_trip(a0, rest);
            assert(spec_dec_opt_u64(t0) == Some((a0, rest)));
        },
        PermitAction::Modify { market_id: a0, cancel_order_id: a1, new_client_id: a2, side: a3, qty: a4, price: a5, tif: a6, reduce_only: a7, trigger_price: a8, trigger_type: a9, health_floor: a10 } => {
            let t10 = spec_enc_opt_health_floor(a10) + rest;
            let t9 = spec_enc_u8(a9) + t10;
            let t8 = spec_enc_opt_u64(a8) + t9;
            let t7 = spec_enc_bool(a7) + t8;
            let t6 = spec_enc_tif(a6) + t7;
            let t5 = spec_enc_opt_u64(a5) + t6;
            let t4 = spec_enc_u64(a4) + t5;
            let t3 = spec_enc_u8(a3) + t4;
            let t2 = spec_enc_u128(a2) + t3;
            let t1 = spec_enc_u64(a1) + t2;
            let t0 = spec_enc_u64(a0) + t1;
            assert(spec_enc_permit_action(x) == (((((((((((spec_enc_u8(4) + spec_enc_u64(a0)) + spec_enc_u64(a1)) + spec_enc_u128(a2)) + spec_enc_u8(a3)) + spec_enc_u64(a4)) + spec_enc_opt_u64(a5)) + spec_enc_tif(a6)) + spec_enc_bool(a7)) + spec_enc_opt_u64(a8)) + spec_enc_u8(a9)) + spec_enc_opt_health_floor(a10)));
            lemma_app_assoc(((((((((((spec_enc_u8(4) + spec_enc_u64(a0)) + spec_enc_u64(a1)) + spec_enc_u128(a2)) + spec_enc_u8(a3)) + spec_enc_u64(a4)) + spec_enc_opt_u64(a5)) + spec_enc_tif(a6)) + spec_enc_bool(a7)) + spec_enc_opt_u64(a8)) + spec_enc_u8(a9)), spec_enc_opt_health_floor(a10), rest);
            lemma_app_assoc((((((((((spec_enc_u8(4) + spec_enc_u64(a0)) + spec_enc_u64(a1)) + spec_enc_u128(a2)) + spec_enc_u8(a3)) + spec_enc_u64(a4)) + spec_enc_opt_u64(a5)) + spec_enc_tif(a6)) + spec_enc_bool(a7)) + spec_enc_opt_u64(a8)), spec_enc_u8(a9), t10);
            lemma_app_assoc(((((((((spec_enc_u8(4) + spec_enc_u64(a0)) + spec_enc_u64(a1)) + spec_enc_u128(a2)) + spec_enc_u8(a3)) + spec_enc_u64(a4)) + spec_enc_opt_u64(a5)) + spec_enc_tif(a6)) + spec_enc_bool(a7)), spec_enc_opt_u64(a8), t9);
            lemma_app_assoc((((((((spec_enc_u8(4) + spec_enc_u64(a0)) + spec_enc_u64(a1)) + spec_enc_u128(a2)) + spec_enc_u8(a3)) + spec_enc_u64(a4)) + spec_enc_opt_u64(a5)) + spec_enc_tif(a6)), spec_enc_bool(a7), t8);
            lemma_app_assoc(((((((spec_enc_u8(4) + spec_enc_u64(a0)) + spec_enc_u64(a1)) + spec_enc_u128(a2)) + spec_enc_u8(a3)) + spec_enc_u64(a4)) + spec_enc_opt_u64(a5)), spec_enc_tif(a6), t7);
            lemma_app_assoc((((((spec_enc_u8(4) + spec_enc_u64(a0)) + spec_enc_u64(a1)) + spec_enc_u128(a2)) + spec_enc_u8(a3)) + spec_enc_u64(a4)), spec_enc_opt_u64(a5), t6);
            lemma_app_assoc(((((spec_enc_u8(4) + spec_enc_u64(a0)) + spec_enc_u64(a1)) + spec_enc_u128(a2)) + spec_enc_u8(a3)), spec_enc_u64(a4), t5);
            lemma_app_assoc((((spec_enc_u8(4) + spec_enc_u64(a0)) + spec_enc_u64(a1)) + spec_enc_u128(a2)), spec_enc_u8(a3), t4);
            lemma_app_assoc(((spec_enc_u8(4) + spec_enc_u64(a0)) + spec_enc_u64(a1)), spec_enc_u128(a2), t3);
            lemma_app_assoc((spec_enc_u8(4) + spec_enc_u64(a0)), spec_enc_u64(a1), t2);
            lemma_app_assoc(spec_enc_u8(4), spec_enc_u64(a0), t1);
            assert(spec_enc_permit_action(x) + rest == spec_enc_u8(4) + t0);
            assert(spec_dec_u64(t0) == Some((a0, t1)));
            assert(spec_dec_u64(t1) == Some((a1, t2)));
            assert(spec_dec_u128(t2) == Some((a2, t3)));
            assert(spec_dec_u8(t3) == Some((a3, t4)));
            assert(spec_dec_u64(t4) == Some((a4, t5)));
            lemma_opt_u64_round_trip(a5, t6);
            assert(spec_dec_opt_u64(t5) == Some((a5, t6)));
            lemma_tif_round_trip(a6, t7);
            assert(spec_dec_tif(t6) == Some((a6, t7)));
            assert(spec_dec_bool(t7) == Some((a7, t8)));
            lemma_opt_u64_round_trip(a8, t9);
            assert(spec_dec_opt_u64(t8) == Some((a8, t9)));
            assert(spec_dec_u8(t9) == Some((a9, t10)));
            lemma_opt_health_floor_round_trip(a10, rest);
            assert(spec_dec_opt_health_floor(t10) == Some((a10, rest)));
        },
        PermitAction::Withdraw { amount: a0, to_owner: a1, health_floor: a2 } => {
            let t2 = spec_enc_opt_health_floor(a2) + rest;
            let t1 = spec_enc_pubkey(a1) + t2;
            let t0 = spec_enc_u64(a0) + t1;
            assert(spec_enc_permit_action(x) == (((spec_enc_u8(5) + spec_enc_u64(a0)) + spec_enc_pubkey(a1)) + spec_enc_opt_health_floor(a2)));
            lemma_app_assoc(((spec_enc_u8(5) + spec_enc_u64(a0)) + spec_enc_pubkey(a1)), spec_enc_opt_health_floor(a2), rest);
            lemma_app_assoc((spec_enc_u8(5) + spec_enc_u64(a0)), spec_enc_pubkey(a1), t2);
            lemma_app_assoc(spec_enc_u8(5), spec_enc_u64(a0), t1);
            assert(spec_enc_permit_action(x) + rest == spec_enc_u8(5) + t0);
            assert(spec_dec_u64(t0) == Some((a0, t1)));
            assert(spec_dec_pubkey(t1) == Some((a1, t2)));
            lemma_opt_health_floor_round_trip(a2, rest);
            assert(spec_dec_opt_health_floor(t2) == Some((a2, rest)));
        },
        PermitAction::SetLeverage { market_id: a0, target_leverage_bps: a1, health_floor: a2 } => {
            let t2 = spec_enc_opt_health_floor(a2) + rest;
            let t1 = spec_enc_u16(a1) + t2;
            let t0 = spec_enc_u64(a0) + t1;
            assert(spec_enc_permit_action(x) == (((spec_enc_u8(6) + spec_enc_u64(a0)) + spec_enc_u16(a1)) + spec_enc_opt_health_floor(a2)));
            lemma_app_assoc(((spec_enc_u8(6) + spec_enc_u64(a0)) + spec_enc_u16(a1)), spec_enc_opt_health_floor(a2), rest);
            lemma_app_assoc((spec_enc_u8(6) + spec_enc_u64(a0)), spec_enc_u16(a1), t2);
            lemma_app_assoc(spec_enc_u8(6), spec_enc_u64(a0), t1);
            assert(spec_enc_permit_action(x) + rest == spec_enc_u8(6) + t0);
            assert(spec_dec_u64(t0) == Some((a0, t1)));
            assert(spec_dec_u16(t1) == Some((a1, t2)));
            lemma_opt_health_floor_round_trip(a2, rest);
            assert(spec_dec_opt_health_floor(t2) == Some((a2, rest)));
        },
        PermitAction::Noop => {
            assert(spec_enc_permit_action(x) + rest =~= spec_enc_u8(7) + rest);
        },
        PermitAction::Faucet { market_id: a0, amount: a1, recipient: a2 } => {
            let t2 = spec_enc_pubkey(a2) + rest;
            let t1 = spec_enc_u64(a1) + t2;
            let t0 = spec_enc_u64(a0) + t1;
            assert(spec_enc_permit_action(x) == (((spec_enc_u8(8) + spec_enc_u64(a0)) + spec_enc_u64(a1)) + spec_enc_pubkey(a2)));
            lemma_app_assoc(((spec_enc_u8(8) + spec_enc_u64(a0)) + spec_enc_u64(a1)), spec_enc_pubkey(a2), rest);
            lemma_app_assoc((spec_enc_u8(8) + spec_enc_u64(a0)), spec_enc_u64(a1), t2);
            lemma_app_assoc(spec_enc_u8(8), spec_enc_u64(a0), t1);
            assert(spec_enc_permit_action(x) + rest == spec_enc_u8(8) + t0);
            assert(spec_dec_u64(t0) == Some((a0, t1)));
            assert(spec_dec_u64(t1) == Some((a1, t2)));
            assert(spec_dec_pubkey(t2) == Some((a2, rest)));
        },
    }
}

/// Append a `PermitAction`.
#[verifier::rlimit(100)]
#[verifier::spinoff_prover]
pub fn enc_permit_action(out: &mut Vec<u8>, x: &PermitAction)
    ensures
        final(out)@ == old(out)@ + spec_enc_permit_action(*x),
{
    match x {
        PermitAction::Place { market_id: a0, client_id: a1, side: a2, qty: a3, price: a4, tif: a5, reduce_only: a6, trigger_price: a7, trigger_type: a8, health_floor: a9 } => {
            enc_u8(out, 0);
            enc_u64(out, *a0);
            enc_u128(out, *a1);
            enc_u8(out, *a2);
            enc_u64(out, *a3);
            enc_opt_u64(out, a4);
            enc_tif(out, a5);
            enc_bool(out, *a6);
            enc_opt_u64(out, a7);
            enc_u8(out, *a8);
            enc_opt_health_floor(out, a9);
        },
        PermitAction::CancelById { market_id: a0, order_id: a1 } => {
            enc_u8(out, 1);
            enc_u64(out, *a0);
            enc_u64(out, *a1);
        },
        PermitAction::CancelByClientId { market_id: a0, client_id: a1 } => {
            enc_u8(out, 2);
            enc_u64(out, *a0);
            enc_u128(out, *a1);
        },
        PermitAction::CancelAll { market_id: a0 } => {
            enc_u8(out, 3);
            enc_opt_u64(out, a0);
        },
        PermitAction::Modify { market_id: a0, cancel_order_id: a1, new_client_id: a2, side: a3, qty: a4, price: a5, tif: a6, reduce_only: a7, trigger_price: a8, trigger_type: a9, health_floor: a10 } => {
            enc_u8(out, 4);
            enc_u64(out, *a0);
            enc_u64(out, *a1);
            enc_u128(out, *a2);
            enc_u8(out, *a3);
            enc_u64(out, *a4);
            enc_opt_u64(out, a5);
            enc_tif(out, a6);
            enc_bool(out, *a7);
            enc_opt_u64(out, a8);
            enc_u8(out, *a9);
            enc_opt_health_floor(out, a10);
        },
        PermitAction::Withdraw { amount: a0, to_owner: a1, health_floor: a2 } => {
            enc_u8(out, 5);
            enc_u64(out, *a0);
            enc_pubkey(out, a1);
            enc_opt_health_floor(out, a2);
        },
        PermitAction::SetLeverage { market_id: a0, target_leverage_bps: a1, health_floor: a2 } => {
            enc_u8(out, 6);
            enc_u64(out, *a0);
            enc_u16(out, *a1);
            enc_opt_health_floor(out, a2);
        },
        PermitAction::Noop => {
            enc_u8(out, 7);
        },
        PermitAction::Faucet { market_id: a0, amount: a1, recipient: a2 } => {
            enc_u8(out, 8);
            enc_u64(out, *a0);
            enc_u64(out, *a1);
            enc_pubkey(out, a2);
        },
    }
    proof {
        assert(final(out)@ =~= old(out)@ + spec_enc_permit_action(*x));
    }
}

/// Read a `PermitAction` at `pos`.
pub fn dec_permit_action(buf: &Vec<u8>, pos: usize) -> (r: Option<(PermitAction, usize)>)
    requires
        pos <= buf@.len(),
    ensures
        match r {
            Some(v) => pos <= v.1 <= buf@.len() && spec_dec_permit_action(buf@.skip(pos as int)) == Some(
                (v.0, buf@.skip(v.1 as int)),
            ),
            None => spec_dec_permit_action(buf@.skip(pos as int)) is None,
        },
{
    let t = match dec_u8(buf, pos) {
        Some(v) => v,
        None => { return None },
    };
        if t.0 == 0 {
            let a0 = match dec_u64(buf, t.1) {
                Some(v) => v,
                None => { return None },
            };
            let a1 = match dec_u128(buf, a0.1) {
                Some(v) => v,
                None => { return None },
            };
            let a2 = match dec_u8(buf, a1.1) {
                Some(v) => v,
                None => { return None },
            };
            let a3 = match dec_u64(buf, a2.1) {
                Some(v) => v,
                None => { return None },
            };
            let a4 = match dec_opt_u64(buf, a3.1) {
                Some(v) => v,
                None => { return None },
            };
            let a5 = match dec_tif(buf, a4.1) {
                Some(v) => v,
                None => { return None },
            };
            let a6 = match dec_bool(buf, a5.1) {
                Some(v) => v,
                None => { return None },
            };
            let a7 = match dec_opt_u64(buf, a6.1) {
                Some(v) => v,
                None => { return None },
            };
            let a8 = match dec_u8(buf, a7.1) {
                Some(v) => v,
                None => { return None },
            };
            let a9 = match dec_opt_health_floor(buf, a8.1) {
                Some(v) => v,
                None => { return None },
            };
            Some(((PermitAction::Place { market_id: a0.0, client_id: a1.0, side: a2.0, qty: a3.0, price: a4.0, tif: a5.0, reduce_only: a6.0, trigger_price: a7.0, trigger_type: a8.0, health_floor: a9.0 }), a9.1))
        }
        else if t.0 == 1 {
            let a0 = match dec_u64(buf, t.1) {
                Some(v) => v,
                None => { return None },
            };
            let a1 = match dec_u64(buf, a0.1) {
                Some(v) => v,
                None => { return None },
            };
            Some(((PermitAction::CancelById { market_id: a0.0, order_id: a1.0 }), a1.1))
        }
        else if t.0 == 2 {
            let a0 = match dec_u64(buf, t.1) {
                Some(v) => v,
                None => { return None },
            };
            let a1 = match dec_u128(buf, a0.1) {
                Some(v) => v,
                None => { return None },
            };
            Some(((PermitAction::CancelByClientId { market_id: a0.0, client_id: a1.0 }), a1.1))
        }
        else if t.0 == 3 {
            let a0 = match dec_opt_u64(buf, t.1) {
                Some(v) => v,
                None => { return None },
            };
            Some(((PermitAction::CancelAll { market_id: a0.0 }), a0.1))
        }
        else if t.0 == 4 {
            let a0 = match dec_u64(buf, t.1) {
                Some(v) => v,
                None => { return None },
            };
            let a1 = match dec_u64(buf, a0.1) {
                Some(v) => v,
                None => { return None },
            };
            let a2 = match dec_u128(buf, a1.1) {
                Some(v) => v,
                None => { return None },
            };
            let a3 = match dec_u8(buf, a2.1) {
                Some(v) => v,
                None => { return None },
            };
            let a4 = match dec_u64(buf, a3.1) {
                Some(v) => v,
                None => { return None },
            };
            let a5 = match dec_opt_u64(buf, a4.1) {
                Some(v) => v,
                None => { return None },
            };
            let a6 = match dec_tif(buf, a5.1) {
                Some(v) => v,
                None => { return None },
            };
            let a7 = match dec_bool(buf, a6.1) {
                Some(v) => v,
                None => { return None },
            };
            let a8 = match dec_opt_u64(buf, a7.1) {
                Some(v) => v,
                None => { return None },
            };
            let a9 = match dec_u8(buf, a8.1) {
                Some(v) => v,
                None => { return None },
            };
            let a10 = match dec_opt_health_floor(buf, a9.1) {
                Some(v) => v,
                None => { return None },
            };
            Some(((PermitAction::Modify { market_id: a0.0, cancel_order_id: a1.0, new_client_id: a2.0, side: a3.0, qty: a4.0, price: a5.0, tif: a6.0, reduce_only: a7.0, trigger_price: a8.0, trigger_type: a9.0, health_floor: a10.0 }), a10.1))
        }
        else if t.0 == 5 {
            let a0 = match dec_u64(buf, t.1) {
                Some(v) => v,
                None => { return None },
            };
            let a1 = match dec_pubkey(buf, a0.1) {
                Some(v) => v,
                None => { return None },
            };
            let a2 = match dec_opt_health_floor(buf, a1.1) {
                Some(v) => v,
                None => { return None },
            };
            Some(((PermitAction::Withdraw { amount: a0.0, to_owner: a1.0, health_floor: a2.0 }), a2.1))
        }
        else if t.0 == 6 {
            let a0 = match dec_u64(buf, t.1) {
                Some(v) => v,
                None => { return None },
            };
            let a1 = match dec_u16(buf, a0.1) {
                Some(v) => v,
                None => { return None },
            };
            let a2 = match dec_opt_health_floor(buf, a1.1) {
                Some(v) => v,
                None => { return None },
            };
            Some(((PermitAction::SetLeverage { market_id: a0.0, target_leverage_bps: a1.0, health_floor: a2.0 }), a2.1))
        }
        else if t.0 == 7 {
            Some((PermitAction::Noop, t.1))
        }
        else if t.0 == 8 {
            let a0 = match dec_u64(buf, t.1) {
                Some(v) => v,
                None => { return None },
            };
            let a1 = match dec_u64(buf, a0.1) {
                Some(v) => v,
                None => { return None },
            };
            let a2 = match dec_pubkey(buf, a1.1) {
                Some(v) => v,
                None => { return None },
            };
            Some(((PermitAction::Faucet { market_id: a0.0, amount: a1.0, recipient: a2.0 }), a2.1))
        }
    else {
        None
    }
}

/// The canonical bytes of a `PermitEnvelopeV1`.
pub open spec fn spec_enc_envelope(x: PermitEnvelopeV1) -> Seq<u8> {
    spec_enc_permit_domain(x.domain) + spec_enc_pubkey(x.authorizer) + spec_enc_key_type(x.key_type) + spec_enc_permit_action(x.action) + spec_enc_replay_mode(x.mode) + spec_enc_i64(x.expires_unix) + spec_enc_u64(x.max_fee_quote) + spec_enc_opt_pubkey(x.relayer) + spec_enc_u64(x.nonce)
}

/// Decode a `PermitEnvelopeV1`.
pub open spec fn spec_dec_envelope(s: Seq<u8>) -> Option<(PermitEnvelopeV1, Seq<u8>)> {
    match spec_dec_permit_domain(s) {
            Some(a0) => match spec_dec_pubkey(a0.1) {
            Some(a1) => match spec_dec_key_type(a1.1) {
            Some(a2) => match spec_dec_permit_action(a2.1) {
            Some(a3) => match spec_dec_replay_mode(a3.1) {
            Some(a4) => match spec_dec_i64(a4.1) {
            Some(a5) => match spec_dec_u64(a5.1) {
            Some(a6) => match spec_dec_opt_pubkey(a6.1) {
            Some(a7) => match spec_dec_u64(a7.1) {
            Some(a8) => Some(((PermitEnvelopeV1 { domain: a0.0, authorizer: a1.0, key_type: a2.0, action: a3.0, mode: a4.0, expires_unix: a5.0, max_fee_quote: a6.0, relayer: a7.0, nonce: a8.0 }), a8.1)),
            None => None,
        },
            None => None,
        },
            None => None,
        },
            None => None,
        },
            None => None,
        },
            None => None,
        },
            None => None,
        },
            None => None,
        },
            None => None,
        }
}

/// Decoding inverts encoding for a `PermitEnvelopeV1`.
#[verifier::rlimit(100)]
#[verifier::spinoff_prover]
pub proof fn lemma_envelope_round_trip(x: PermitEnvelopeV1, rest: Seq<u8>)
    ensures
        spec_dec_envelope(spec_enc_envelope(x) + rest) == Some((x, rest)),
{
    lemma_prim_round_trip();
    let t8 = spec_enc_u64(x.nonce) + rest;
    let t7 = spec_enc_opt_pubkey(x.relayer) + t8;
    let t6 = spec_enc_u64(x.max_fee_quote) + t7;
    let t5 = spec_enc_i64(x.expires_unix) + t6;
    let t4 = spec_enc_replay_mode(x.mode) + t5;
    let t3 = spec_enc_permit_action(x.action) + t4;
    let t2 = spec_enc_key_type(x.key_type) + t3;
    let t1 = spec_enc_pubkey(x.authorizer) + t2;
    let t0 = spec_enc_permit_domain(x.domain) + t1;
    assert(spec_enc_envelope(x) == ((((((((spec_enc_permit_domain(x.domain) + spec_enc_pubkey(x.authorizer)) + spec_enc_key_type(x.key_type)) + spec_enc_permit_action(x.action)) + spec_enc_replay_mode(x.mode)) + spec_enc_i64(x.expires_unix)) + spec_enc_u64(x.max_fee_quote)) + spec_enc_opt_pubkey(x.relayer)) + spec_enc_u64(x.nonce)));
    lemma_app_assoc((((((((spec_enc_permit_domain(x.domain) + spec_enc_pubkey(x.authorizer)) + spec_enc_key_type(x.key_type)) + spec_enc_permit_action(x.action)) + spec_enc_replay_mode(x.mode)) + spec_enc_i64(x.expires_unix)) + spec_enc_u64(x.max_fee_quote)) + spec_enc_opt_pubkey(x.relayer)), spec_enc_u64(x.nonce), rest);
    lemma_app_assoc(((((((spec_enc_permit_domain(x.domain) + spec_enc_pubkey(x.authorizer)) + spec_enc_key_type(x.key_type)) + spec_enc_permit_action(x.action)) + spec_enc_replay_mode(x.mode)) + spec_enc_i64(x.expires_unix)) + spec_enc_u64(x.max_fee_quote)), spec_enc_opt_pubkey(x.relayer), t8);
    lemma_app_assoc((((((spec_enc_permit_domain(x.domain) + spec_enc_pubkey(x.authorizer)) + spec_enc_key_type(x.key_type)) + spec_enc_permit_action(x.action)) + spec_enc_replay_mode(x.mode)) + spec_enc_i64(x.expires_unix)), spec_enc_u64(x.max_fee_quote), t7);
    lemma_app_assoc(((((spec_enc_permit_domain(x.domain) + spec_enc_pubkey(x.authorizer)) + spec_enc_key_type(x.key_type)) + spec_enc_permit_action(x.action)) + spec_enc_replay_mode(x.mode)), spec_enc_i64(x.expires_unix), t6);
    lemma_app_assoc((((spec_enc_permit_domain(x.domain) + spec_enc_pubkey(x.authorizer)) + spec_enc_key_type(x.key_type)) + spec_enc_permit_action(x.action)), spec_enc_replay_mode(x.mode), t5);
    lemma_app_assoc(((spec_enc_permit_domain(x.domain) + spec_enc_pubkey(x.authorizer)) + spec_enc_key_type(x.key_type)), spec_enc_permit_action(x.action), t4);
    lemma_app_assoc((spec_enc_permit_domain(x.domain) + spec_enc_pubkey(x.authorizer)), spec_enc_key_type(x.key_type), t3);
    lemma_app_assoc(spec_enc_permit_domain(x.domain), spec_enc_pubkey(x.authorizer), t2);
    assert(spec_enc_envelope(x) + rest == t0);
    lemma_permit_domain_round_trip(x.domain, t1);
    assert(spec_dec_permit_domain(t0) == Some((x.domain, t1)));
    assert(spec_dec_pubkey(t1) == Some((x.authorizer, t2)));
    lemma_key_type_round_trip(x.key_type, t3);
    assert(spec_dec_key_type(t2) == Some((x.key_type, t3)));
    lemma_permit_action_round_trip(x.action, t4);
    assert(spec_dec_permit_action(t3) == Some((x.action, t4)));
    lemma_replay_mode_round_trip(x.mode, t5);
    assert(spec_dec_replay_mode(t4) == Some((x.mode, t5)));
    assert(spec_dec_i64(t5) == Some((x.expires_unix, t6)));
    assert(spec_dec_u64(t6) == Some((x.max_fee_quote, t7)));
    lemma_opt_pubkey_round_trip(x.relayer, t8);
    assert(spec_dec_opt_pubkey(t7) == Some((x.relayer, t8)));
    assert(spec_dec_u64(t8) == Some((x.nonce, rest)));
}

/// Append a `PermitEnvelopeV1`.
pub fn enc_envelope(out: &mut Vec<u8>, x: &PermitEnvelopeV1)
    ensures
        final(out)@ == old(out)@ + spec_enc_envelope(*x),
{
    enc_permit_domain(out, &x.domain);
    enc_pubkey(out, &x.authorizer);
    enc_key_type(out, &x.key_type);
    enc_permit_action(out, &x.action);
    enc_replay_mode(out, &x.mode);
    enc_i64(out, x.expires_unix);
    enc_u64(out, x.max_fee_quote);
    enc_opt_pubkey(out, &x.relayer);
    enc_u64(out, x.nonce);
    proof {
        assert(final(out)@ =~= old(out)@ + spec_enc_envelope(*x));
    }
}

/// Read a `PermitEnvelopeV1` at `pos`.
pub fn dec_envelope(buf: &Vec<u8>, pos: usize) -> (r: Option<(PermitEnvelopeV1, usize)>)
    requires
        pos <= buf@.len(),
    ensures
        match r {
            Some(v) => pos <= v.1 <= buf@.len() && spec_dec_envelope(buf@.skip(pos as int)) == Some(
                (v.0, buf@.skip(v.1 as int)),
            ),
            None => spec_dec_envelope(buf@.skip(pos as int)) is None,
        },
{
    let a0 = match dec_permit_domain(buf, pos) {
        Some(v) => v,
        None => { return None },
    };
    let a1 = match dec_pubkey(buf, a0.1) {
        Some(v) => v,
        None => { return None },
    };
    let a2 = match dec_key_type(buf, a1.1) {
        Some(v) => v,
        None => { return None },
    };
    let a3 = match dec_permit_action(buf, a2.1) {
        Some(v) => v,
        None => { return None },
    };
    let a4 = match dec_replay_mode(buf, a3.1) {
        Some(v) => v,
        None => { return None },
    };
    let a5 = match dec_i64(buf, a4.1) {
        Some(v) => v,
        None => { return None },
    };
    let a6 = match dec_u64(buf, a5.1) {
        Some(v) => v,
        None => { return None },
    };
    let a7 = match dec_opt_pubkey(buf, a6.1) {
        Some(v) => v,
        None => { return None },
    };
    let a8 = match dec_u64(buf, a7.1) {
        Some(v) => v,
        None => { return None },
    };
    Some((PermitEnvelopeV1 { domain: a0.0, authorizer: a1.0, key_type: a2.0, action: a3.0, mode: a4.0, expires_unix: a5.0, max_fee_quote: a6.0, relayer: a7.0, nonce: a8.0 }, a8.1))
}

/// The canonical bytes of an `OffchainFillQuote`.
pub open spec fn spec_enc_fill_quote(x: OffchainFillQuote) -> Seq<u8> {
    spec_enc_u64(x.order_id) + spec_enc_order_side(x.side) + spec_enc_u64(x.fill_qty) + spec_enc_u64(x.fill_price) + spec_enc_u64(x.expiry_slot) + spec_enc_u64(x.market_id) + spec_enc_pubkey(x.user) + spec_enc_u64(x.nonce)
}

/// Decode an `OffchainFillQuote`.
pub open spec fn spec_dec_fill_quote(s: Seq<u8>) -> Option<(OffchainFillQuote, Seq<u8>)> {
    match spec_dec_u64(s) {
            Some(a0) => match spec_dec_order_side(a0.1) {
            Some(a1) => match spec_dec_u64(a1.1) {
            Some(a2) => match spec_dec_u64(a2.1) {
            Some(a3) => match spec_dec_u64(a3.1) {
            Some(a4) => match spec_dec_u64(a4.1) {
            Some(a5) => match spec_dec_pubkey(a5.1) {
            Some(a6) => match spec_dec_u64(a6.1) {
            Some(a7) => Some(((OffchainFillQuote { order_id: a0.0, side: a1.0, fill_qty: a2.0, fill_price: a3.0, expiry_slot: a4.0, market_id: a5.0, user: a6.0, nonce: a7.0 }), a7.1)),
            None => None,
        },
            None => None,
        },
            None => None,
        },
            None => None,
        },
            None => None,
        },
            None => None,
        },
            None => None,
        },
            None => None,
        }
}

/// Decoding inverts encoding for an `OffchainFillQuote`.
pub proof fn lemma_fill_quote_round_trip(x: OffchainFillQuote, rest: Seq<u8>)
    ensures
        spec_dec_fill_quote(spec_enc_fill_quote(x) + rest) == Some((x, rest)),
{
    lemma_prim_round_trip();
    let t7 = spec_enc_u64(x.nonce) + rest;
    let t6 = spec_enc_pubkey(x.user) + t7;
    let t5 = spec_enc_u64(x.market_id) + t6;
    let t4 = spec_enc_u64(x.expiry_slot) + t5;
    let t3 = spec_enc_u64(x.fill_price) + t4;
    let t2 = spec_enc_u64(x.fill_qty) + t3;
    let t1 = spec_enc_order_side(x.side) + t2;
    let t0 = spec_enc_u64(x.order_id) + t1;
    assert(spec_enc_fill_quote(x) + rest =~= t0);
    lemma_order_side_round_trip(x.side, t2);
}

/// Append an `OffchainFillQuote`.
pub fn enc_fill_quote(out: &mut Vec<u8>, x: &OffchainFillQuote)
    ensures
        final(out)@ == old(out)@ + spec_enc_fill_quote(*x),
{
    enc_u64(out, x.order_id);
    enc_order_side(out, &x.side);
    enc_u64(out, x.fill_qty);
    enc_u64(out, x.fill_price);
    enc_u64(out, x.expiry_slot);
    enc_u64(out, x.market_id);
    enc_pubkey(out, &x.user);
    enc_u64(out, x.nonce);
    proof {
        assert(final(out)@ =~= old(out)@ + spec_enc_fill_quote(*x));
    }
}

/// Read an `OffchainFillQuote` at `pos`.
pub fn dec_fill_quote(buf: &Vec<u8>, pos: usize) -> (r: Option<(OffchainFillQuote, usize)>)
    requires
        pos <= buf@.len(),
    ensures
        match r {
            Some(v) => pos <= v.1 <= buf@.len() && spec_dec_fill_quote(buf@.skip(pos as int)) == Some(
                (v.0, buf@.skip(v.1 as int)),
            ),
            None => spec_dec_fill_quote(buf@.skip(pos as int)) is None,
        },
{
    let a0 = match dec_u64(buf, pos) {
        Some(v) => v,
        None => { return None },
    };
    let a1 = match dec_order_side(buf, a0.1) {
        Some(v) => v,
        None => { return None },
    };
    let a2 = match dec_u64(buf, a1.1) {
        Some(v) => v,
        None => { return None },
    };
    let a3 = match dec_u64(buf, a2.1) {
        Some(v) => v,
        None => { return None },
    };
    let a4 = match dec_u64(buf, a3.1) {
        Some(v) => v,
        None => { return None },
    };
    let a5 = match dec_u64(buf, a4.1) {
        Some(v) => v,
        None => { return None },
    };
    let a6 = match dec_pubkey(buf, a5.1) {
        Some(v) => v,
        None => { return None },
    };
    let a7 = match dec_u64(buf, a6.1) {
        Some(v) => v,
        None => { return None },
    };
    Some((OffchainFillQuote { order_id: a0.0, side: a1.0, fill_qty: a2.0, fill_price: a3.0, expiry_slot: a4.0, market_id: a5.0, user: a6.0, nonce: a7.0 }, a7.1))
}

/// The canonical bytes of a permit envelope.
pub fn encode_envelope(e: &PermitEnvelopeV1) -> (r: Vec<u8>)
    ensures
        r@ == spec_enc_envelope(*e),
{
    let mut out: Vec<u8> = Vec::new();
    enc_envelope(&mut out, e);
    proof {
        assert(out@ =~= spec_enc_envelope(*e));
    }
    out
}

/// Decode a permit envelope from its canonical bytes; the whole buffer
/// must be consumed.
pub fn decode_envelope(bytes: &Vec<u8>) -> (r: Option<PermitEnvelopeV1>)
    ensures
        match r {
            Some(e) => spec_dec_envelope(bytes@) matches Some(v) && v.0 == e && v.1.len() == 0,
            None => spec_dec_envelope(bytes@) matches Some(v) ==> v.1.len() != 0,
        },
{
    proof {
        assert(bytes@.skip(0) =~= bytes@);
    }
    match dec_envelope(bytes, 0) {
        Some(v) => {
            if v.1 == bytes.len() {
                Some(v.0)
            } else {
                None
            }
        },
        None => None,
    }
}

/// Law: canonical encoding round-trips.  Decoding the canonical bytes of
/// any permit envelope yields the envelope back.
pub proof fn lemma_envelope_encode_decode(e: PermitEnvelopeV1)
    ensures
        spec_dec_envelope(spec_enc_envelope(e)) matches Some(v) && v.0 == e && v.1.len() == 0,
{
    lemma_envelope_round_trip(e, Seq::empty());
    assert(spec_enc_envelope(e) + Seq::<u8>::empty() =~= spec_enc_envelope(e));
}

/// Law: canonical encoding is injective.  Two envelopes with the same
/// canonical bytes are the same envelope, so any change to the encoded
/// form that still decodes yields a distinct envelope.
pub proof fn lemma_envelope_enc_injective(a: PermitEnvelopeV1, b: PermitEnvelopeV1)
    requires
        spec_enc_envelope(a) == spec_enc_envelope(b),
    ensures
        a == b,
{
    lemma_envelope_encode_decode(a);
    lemma_envelope_encode_decode(b);
}

/// Decode a fill quote from its canonical bytes; the whole buffer must be
/// consumed.
pub fn decode_fill_quote(bytes: &Vec<u8>) -> (r: Option<OffchainFillQuote>)
    ensures
        match r {
            Some(q) => spec_dec_fill_quote(bytes@) matches Some(v) && v.0 == q && v.1.len() == 0,
            None => spec_dec_fill_quote(bytes@) matches Some(v) ==> v.1.len() != 0,
        },
{
    proof {
        assert(bytes@.skip(0) =~= bytes@);
    }
    match dec_fill_quote(bytes, 0) {
        Some(v) => {
            if v.1 == bytes.len() {
                Some(v.0)
            } else {
                None
            }
        },
        None => None,
    }
}

/// Law: canonical encoding round-trips for fill quotes.
pub proof fn lemma_fill_quote_encode_decode(q: OffchainFillQuote)
    ensures
        spec_dec_fill_quote(spec_enc_fill_quote(q)) matches Some(v) && v.0 == q && v.1.len() == 0,
{
    lemma_fill_quote_round_trip(q, Seq::empty());
    assert(spec_enc_fill_quote(q) + Seq::<u8>::empty() =~= spec_enc_fill_quote(q));
}

} // verus!
