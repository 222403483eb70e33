//! Market-wide order registry over a fixed byte range.
//!
//! The production form of the registry: a versioned header and `capacity`
//! fixed-size slots in one contiguous byte buffer.  Each slot holds a
//! link word and a serialized marker; a zero link marks an occupied slot,
//! and a free slot links to the next free slot (stored as that slot's
//! index plus one, with the all-ones word closing the chain), giving
//! constant-time reuse of freed slots.

use vstd::prelude::*;

use crate::codec::dec_u64;
use crate::codec::enc_u64;
use crate::codec::lemma_prim_round_trip;
use crate::codec::lemma_prim_sound;
use crate::codec::spec_dec_u64;
use crate::codec::dec_u8;
use crate::codec::enc_u8;
use crate::codec::spec_dec_u8;
use crate::codec::spec_enc_u64;
use crate::codec::spec_enc_u8;
use crate::order_codec::dec_bytes_n;
use crate::order_codec::enc_bytes_n;
use crate::order_codec::lemma_app_assoc;
use crate::order_codec::lemma_arr_round_trip;
use crate::order_codec::lemma_arr_sound;
use crate::order_codec::spec_dec_arr;
use crate::error::ProgramError;
use crate::keys::Pubkey;
use crate::order::OrderMarker;
use crate::order_codec::dec_order_marker;
use crate::order_codec::enc_order_marker;
use crate::order_codec::lemma_order_marker_round_trip;
use crate::order_codec::lemma_order_marker_sound;
use crate::order_codec::spec_dec_order_marker;
use crate::order_codec::spec_enc_order_marker;
use crate::zero_copy_market_order_log::write_bytes_at;

verus! {

/// Registry layout version.
pub const STORAGE_VERSION: u8 = 1;

/// Encoded size of the registry header.
pub const REG_HEADER_SIZE: usize = 72;

/// Encoded size of one order marker.
pub const MARKER_ENCODED_SIZE: usize = 48;

/// Size of one slot: the link word plus the marker bytes.
pub const SLOT_SIZE: usize = 56;

/// The link word of an occupied slot.
pub const LINK_OCCUPIED: u64 = 0;

/// The link word closing the free chain.
pub const LINK_END: u64 = 0xffff_ffff_ffff_ffff;

/// Failures of zero-copy registry operations.
#[derive(Debug, Clone, Copy, PartialEq, Eq, Structural)]
pub enum ZeroCopyStorageError {
    StorageFull,
    OrderNotFound,
    InvalidMarkerSize,
    AccountTooSmall,
    CorruptedData,
    InvalidAlignment,
    UnsupportedVersion,
    InvalidCapacity,
}

impl ZeroCopyStorageError {
    /// The custom program-error code of this failure.
    pub open spec fn spec_code(self) -> u32 {
        match self {
            ZeroCopyStorageError::StorageFull => 200,
            ZeroCopyStorageError::OrderNotFound => 201,
            ZeroCopyStorageError::InvalidMarkerSize => 202,
            ZeroCopyStorageError::AccountTooSmall => 203,
            ZeroCopyStorageError::CorruptedData => 204,
            ZeroCopyStorageError::InvalidAlignment => 205,
            ZeroCopyStorageError::UnsupportedVersion => 206,
            ZeroCopyStorageError::InvalidCapacity => 207,
        }
    }

    /// Map this failure to its custom program error.
    pub fn to_program_error(&self) -> (r: ProgramError)
        ensures
            r == ProgramError::Custom(self.spec_code()),
    {
        match self {
            ZeroCopyStorageError::StorageFull => ProgramError::Custom(200),
            ZeroCopyStorageError::OrderNotFound => ProgramError::Custom(201),
            ZeroCopyStorageError::InvalidMarkerSize => ProgramError::Custom(202),
            ZeroCopyStorageError::AccountTooSmall => ProgramError::Custom(203),
            ZeroCopyStorageError::CorruptedData => ProgramError::Custom(204),
            ZeroCopyStorageError::InvalidAlignment => ProgramError::Custom(205),
            ZeroCopyStorageError::UnsupportedVersion => ProgramError::Custom(206),
            ZeroCopyStorageError::InvalidCapacity => ProgramError::Custom(207),
        }
    }
}

/// Fixed-size header at the start of the byte range.
#[derive(Debug, Clone, Copy, PartialEq)]
pub struct OrderStorageHeader {
    /// Layout version, for migration compatibility.
    pub version: u8,
    pub _pad1: [u8; 7],
    /// Maximum number of slots.
    pub capacity: u64,
    /// Current number of active markers.
    pub count: u64,
    /// First free slot of the reuse chain, or the all-ones word.
    pub free_head: u64,
    /// Next never-used slot.
    pub next_free: u64,
    /// Encoded marker size, for validation.
    pub marker_size: u64,
    pub _pad2: [u8; 24],
}

/// The shape of one slot: a link word followed by the marker bytes.
#[derive(Debug, Clone, Copy, PartialEq, Eq, Structural)]
pub struct SlotEntry {
    /// Link word: zero for occupied, otherwise the next free slot.
    pub next_free: u64,
}

impl SlotEntry {
    /// The size of a slot for a given marker size.
    pub fn slot_size(marker_size: usize) -> (r: usize)
        requires
            marker_size <= usize::MAX - 8,
        ensures
            r == 8 + marker_size,
    {
        8 + marker_size
    }
}

/// The canonical encoded marker size.
pub fn get_marker_serialized_size() -> (r: usize)
    ensures
        r == MARKER_ENCODED_SIZE,
{
    let dummy: OrderMarker = Default::default();
    let mut out: Vec<u8> = Vec::new();
    enc_order_marker(&mut out, &dummy);
    proof {
        lemma_prim_round_trip();
        broadcast use vstd::array::array_len_matches_n;

        assert(out@.len() == MARKER_ENCODED_SIZE);
    }
    out.len()
}

/// An encoded marker is exactly the canonical marker size.
pub proof fn lemma_marker_size(m: OrderMarker)
    ensures
        spec_enc_order_marker(m).len() == MARKER_ENCODED_SIZE,
{
    lemma_prim_round_trip();
    broadcast use vstd::array::array_len_matches_n;

}

/// An encoded registry header is exactly the header size.
pub proof fn lemma_reg_header_size(h: OrderStorageHeader)
    ensures
        spec_enc_reg_header(h).len() == REG_HEADER_SIZE,
{
    lemma_prim_round_trip();
    broadcast use vstd::array::array_len_matches_n;

}

/// A byte range long enough for a registry header always decodes one.
pub proof fn lemma_reg_header_total(s: Seq<u8>)
    requires
        s.len() >= REG_HEADER_SIZE,
    ensures
        spec_dec_reg_header(s) is Some,
{
    assert(spec_dec_u8(s) is Some);
    let s1 = spec_dec_u8(s)->Some_0.1;
    assert(s1.len() >= 71);
    assert(spec_dec_arr::<7>(s1) is Some);
    let s2 = spec_dec_arr::<7>(s1)->Some_0.1;
    assert(s2.len() >= 64);
    assert(spec_dec_u64(s2) is Some);
    let s3 = spec_dec_u64(s2)->Some_0.1;
    assert(s3.len() >= 56);
    assert(spec_dec_u64(s3) is Some);
    let s4 = spec_dec_u64(s3)->Some_0.1;
    assert(s4.len() >= 48);
    assert(spec_dec_u64(s4) is Some);
    let s5 = spec_dec_u64(s4)->Some_0.1;
    assert(s5.len() >= 40);
    assert(spec_dec_u64(s5) is Some);
    let s6 = spec_dec_u64(s5)->Some_0.1;
    assert(s6.len() >= 32);
    assert(spec_dec_u64(s6) is Some);
    let s7 = spec_dec_u64(s6)->Some_0.1;
    assert(s7.len() >= 24);
    assert(spec_dec_arr::<24>(s7) is Some);
}

/// A well-formed registry's bytes decode to its header.
pub proof fn lemma_wf_reg_header_decodes(st2: SafeZeroCopyOrderStorage)
    requires
        st2.wf(),
    ensures
        spec_dec_reg_header(st2.spec_bytes()) == Some(
            (st2.spec_header(), st2.spec_bytes().skip(REG_HEADER_SIZE as int)),
        ),
{
    lemma_reg_header_size(st2.spec_header());
    crate::zero_copy_market_order_log::lemma_skip_concat(
        st2.spec_bytes(),
        spec_enc_reg_header(st2.spec_header()),
        0,
    );
    lemma_reg_header_round_trip(st2.spec_header(), st2.spec_bytes().skip(REG_HEADER_SIZE as int));
    assert(st2.spec_bytes().skip(0) =~= st2.spec_bytes());
}

/// A well-formed registry's bytes decode each occupied slot's marker.
pub proof fn lemma_wf_marker_decodes(st2: SafeZeroCopyOrderStorage, i: int)
    requires
        st2.wf(),
        0 <= i < st2.spec_header().capacity,
        st2.spec_slots()[i] is Some,
    ensures
        ({
            let off = REG_HEADER_SIZE + i * SLOT_SIZE + 8;
            let m = st2.spec_slots()[i]->Some_0;
            spec_dec_order_marker(st2.spec_bytes().skip(off)) == Some(
                (m, st2.spec_bytes().skip(off + MARKER_ENCODED_SIZE)),
            )
        }),
{
    let h = st2.spec_header();
    assert(0 <= i * 56 && i * 56 + 56 <= (h.capacity as int) * 56) by (nonlinear_arith)
        requires
            0 <= i < h.capacity,
    ;
    let off = REG_HEADER_SIZE + i * SLOT_SIZE + 8;
    let m = st2.spec_slots()[i]->Some_0;
    lemma_marker_size(m);
    crate::zero_copy_market_order_log::lemma_skip_concat(
        st2.spec_bytes(),
        spec_enc_order_marker(m),
        off,
    );
    lemma_order_marker_round_trip(m, st2.spec_bytes().skip(off + MARKER_ENCODED_SIZE));
}

/// A sequence of distinct values all below a bound is no longer than the
/// bound.
proof fn lemma_distinct_below_bound(s: Seq<u64>, n: int)
    requires
        forall|k1: int, k2: int| 0 <= k1 < k2 < s.len() ==> (#[trigger] s[k1]) != (#[trigger] s[k2]),
        forall|k: int| 0 <= k < s.len() ==> (#[trigger] s[k]) < n,
        0 <= n,
    ensures
        s.len() <= n,
{
    broadcast use vstd::set::group_set_axioms;

    let si = s.map_values(|x: u64| x as int);
    assert(si.no_duplicates()) by {
        assert forall|i: int, j: int|
            (0 <= i < si.len() && 0 <= j < si.len() && i != j) implies si[i] != si[j] by {
            assert(si[i] == s[i] as int && si[j] == s[j] as int);
            if i < j {
                assert(s[i] != s[j]);
            } else {
                assert(s[j] != s[i]);
            }
        }
    };
    si.unique_seq_to_set();
    assert(si.to_set().subset_of(vstd::set_lib::set_int_range(0, n))) by {
        assert forall|x: int| si.to_set().contains(x) implies vstd::set_lib::set_int_range(
            0,
            n,
        ).contains(x) by {
            let k = choose|k: int| 0 <= k < si.len() && si[k] == x;
            assert(si[k] == s[k] as int);
            assert(s[k] < n);
        }
    };
    vstd::set_lib::lemma_int_range(0, n);
    vstd::set_lib::lemma_len_subset(si.to_set(), vstd::set_lib::set_int_range(0, n));
}

/// Two slot sequences of equal length with the same occupancy pattern
/// have the same active count.
proof fn lemma_active_count_congruent(a: Seq<Option<OrderMarker>>, b: Seq<Option<OrderMarker>>)
    requires
        a.len() == b.len(),
        forall|i: int| 0 <= i < a.len() ==> ((#[trigger] a[i]) is Some <==> (#[trigger] b[i]) is Some),
    ensures
        spec_active_count(a) == spec_active_count(b),
    decreases a.len(),
{
    if a.len() != 0 {
        lemma_active_count_congruent(a.drop_last(), b.drop_last());
        assert(a[a.len() - 1] is Some <==> b[b.len() - 1] is Some);
    }
}

/// How many slots of `s` are occupied.
pub open spec fn spec_active_count(s: Seq<Option<OrderMarker>>) -> int
    decreases s.len(),
{
    if s.len() == 0 {
        0
    } else {
        spec_active_count(s.drop_last()) + (if s.last() is Some {
            1int
        } else {
            0int
        })
    }
}

/// An active count lies between zero and the slot count.
pub proof fn lemma_active_count_bounds(s: Seq<Option<OrderMarker>>)
    ensures
        0 <= spec_active_count(s) <= s.len(),
    decreases s.len(),
{
    if s.len() != 0 {
        lemma_active_count_bounds(s.drop_last());
    }
}

/// Updating one slot moves the active count by the difference of the old
/// and new occupancy.
pub proof fn lemma_active_count_update(s: Seq<Option<OrderMarker>>, i: int, x: Option<OrderMarker>)
    requires
        0 <= i < s.len(),
    ensures
        spec_active_count(s.update(i, x)) == spec_active_count(s) - (if s[i] is Some {
            1int
        } else {
            0int
        }) + (if x is Some {
            1int
        } else {
            0int
        }),
    decreases s.len(),
{
    let t = s.update(i, x);
    if i == s.len() - 1 {
        assert(t.drop_last() =~= s.drop_last());
    } else {
        lemma_active_count_update(s.drop_last(), i, x);
        assert(t.drop_last() =~= s.drop_last().update(i, x));
        assert(t.last() == s.last());
    }
}

/// A blank tail does not change the active count.
pub proof fn lemma_active_count_none_tail(s: Seq<Option<OrderMarker>>, nf: int)
    requires
        0 <= nf <= s.len(),
        forall|j: int| nf <= j < s.len() ==> (#[trigger] s[j]) is None,
    ensures
        spec_active_count(s) == spec_active_count(s.take(nf)),
    decreases s.len(),
{
    if s.len() == nf {
        assert(s.take(nf) =~= s);
    } else {
        assert(s.drop_last() =~= s.take(s.len() - 1));
        lemma_active_count_none_tail(s.take(s.len() - 1), nf);
        assert(s.take(s.len() - 1).take(nf) =~= s.take(nf));
    }
}

/// An occupied slot forces a positive active count.
pub proof fn lemma_active_count_pos(s: Seq<Option<OrderMarker>>, i: int)
    requires
        0 <= i < s.len(),
        s[i] is Some,
    ensures
        spec_active_count(s) >= 1,
    decreases s.len(),
{
    lemma_active_count_bounds(s.drop_last());
    if i < s.len() - 1 {
        lemma_active_count_pos(s.drop_last(), i);
    }
}

/// The canonical bytes of a registry header.
pub open spec fn spec_enc_reg_header(x: OrderStorageHeader) -> Seq<u8> {
    spec_enc_u8(x.version) + x._pad1@ + spec_enc_u64(x.capacity) + spec_enc_u64(x.count) + spec_enc_u64(x.free_head) + spec_enc_u64(x.next_free) + spec_enc_u64(x.marker_size) + x._pad2@
}

/// Decode a registry header.
pub open spec fn spec_dec_reg_header(s: Seq<u8>) -> Option<(OrderStorageHeader, Seq<u8>)> {
    match spec_dec_u8(s) {
            Some(a0) => match spec_dec_arr::<7>(a0.1) {
            Some(a1) => match spec_dec_u64(a1.1) {
            Some(a2) => match spec_dec_u64(a2.1) {
            Some(a3) => match spec_dec_u64(a3.1) {
            Some(a4) => match spec_dec_u64(a4.1) {
            Some(a5) => match spec_dec_u64(a5.1) {
            Some(a6) => match spec_dec_arr::<24>(a6.1) {
            Some(a7) => Some(((OrderStorageHeader { version: a0.0, _pad1: a1.0, capacity: a2.0, count: a3.0, free_head: a4.0, next_free: a5.0, marker_size: a6.0, _pad2: a7.0 }), a7.1)),
            None => None,
        },
            None => None,
        },
            None => None,
        },
            None => None,
        },
            None => None,
        },
            None => None,
        },
            None => None,
        },
            None => None,
        }
}

/// Decoding inverts encoding for a registry header.
pub proof fn lemma_reg_header_round_trip(x: OrderStorageHeader, rest: Seq<u8>)
    ensures
        spec_dec_reg_header(spec_enc_reg_header(x) + rest) == Some((x, rest)),
{
    lemma_prim_round_trip();
    let t7 = x._pad2@ + rest;
    let t6 = spec_enc_u64(x.marker_size) + t7;
    let t5 = spec_enc_u64(x.next_free) + t6;
    let t4 = spec_enc_u64(x.free_head) + t5;
    let t3 = spec_enc_u64(x.count) + t4;
    let t2 = spec_enc_u64(x.capacity) + t3;
    let t1 = x._pad1@ + t2;
    let t0 = spec_enc_u8(x.version) + t1;
    assert(spec_enc_reg_header(x) + rest =~= t0);
    lemma_arr_round_trip::<7>(x._pad1, t2);
    lemma_arr_round_trip::<24>(x._pad2, rest);
}

/// Append a registry header.
pub fn enc_reg_header(out: &mut Vec<u8>, x: &OrderStorageHeader)
    ensures
        final(out)@ == old(out)@ + spec_enc_reg_header(*x),
{
    enc_u8(out, x.version);
    enc_bytes_n(out, &x._pad1);
    enc_u64(out, x.capacity);
    enc_u64(out, x.count);
    enc_u64(out, x.free_head);
    enc_u64(out, x.next_free);
    enc_u64(out, x.marker_size);
    enc_bytes_n(out, &x._pad2);
    proof {
        assert(final(out)@ =~= old(out)@ + spec_enc_reg_header(*x));
    }
}

/// Read a registry header at `pos`.
pub fn dec_reg_header(buf: &Vec<u8>, pos: usize) -> (r: Option<(OrderStorageHeader, usize)>)
    requires
        pos <= buf@.len(),
    ensures
        match r {
            Some(v) => pos <= v.1 <= buf@.len() && spec_dec_reg_header(buf@.skip(pos as int)) == Some(
                (v.0, buf@.skip(v.1 as int)),
            ),
            None => spec_dec_reg_header(buf@.skip(pos as int)) is None,
        },
{
    let a0 = match dec_u8(buf, pos) {
        Some(v) => v,
        None => { return None },
    };
    let a1 = match dec_bytes_n::<7>(buf, a0.1) {
        Some(v) => v,
        None => { return None },
    };
    let a2 = match dec_u64(buf, a1.1) {
        Some(v) => v,
        None => { return None },
    };
    let a3 = match dec_u64(buf, a2.1) {
        Some(v) => v,
        None => { return None },
    };
    let a4 = match dec_u64(buf, a3.1) {
        Some(v) => v,
        None => { return None },
    };
    let a5 = match dec_u64(buf, a4.1) {
        Some(v) => v,
        None => { return None },
    };
    let a6 = match dec_u64(buf, a5.1) {
        Some(v) => v,
        None => { return None },
    };
    let a7 = match dec_bytes_n::<24>(buf, a6.1) {
        Some(v) => v,
        None => { return None },
    };
    Some((OrderStorageHeader { version: a0.0, _pad1: a1.0, capacity: a2.0, count: a3.0, free_head: a4.0, next_free: a5.0, marker_size: a6.0, _pad2: a7.0 }, a7.1))
}

/// A successful decode consumed exactly the canonical bytes of its
/// result, for a registry header.
pub proof fn lemma_reg_header_sound(s: Seq<u8>)
    requires
        spec_dec_reg_header(s) is Some,
    ensures
        ({
            let v = spec_dec_reg_header(s)->Some_0;
            s == spec_enc_reg_header(v.0) + v.1
        }),
{
    lemma_prim_sound();
    let a0 = spec_dec_u8(s)->Some_0;
    let a1 = spec_dec_arr::<7>(a0.1)->Some_0;
    lemma_arr_sound::<7>(a0.1);
    let a2 = spec_dec_u64(a1.1)->Some_0;
    let a3 = spec_dec_u64(a2.1)->Some_0;
    let a4 = spec_dec_u64(a3.1)->Some_0;
    let a5 = spec_dec_u64(a4.1)->Some_0;
    let a6 = spec_dec_u64(a5.1)->Some_0;
    let a7 = spec_dec_arr::<24>(a6.1)->Some_0;
    lemma_arr_sound::<24>(a6.1);
    assert(s =~= spec_enc_u8(a0.0) + a0.1);
    lemma_app_assoc(spec_enc_u8(a0.0), a1.0@, a1.1);
    assert(s =~= (spec_enc_u8(a0.0) + a1.0@) + a1.1);
    lemma_app_assoc((spec_enc_u8(a0.0) + a1.0@), spec_enc_u64(a2.0), a2.1);
    assert(s =~= ((spec_enc_u8(a0.0) + a1.0@) + spec_enc_u64(a2.0)) + a2.1);
    lemma_app_assoc(((spec_enc_u8(a0.0) + a1.0@) + spec_enc_u64(a2.0)), spec_enc_u64(a3.0), a3.1);
    assert(s =~= (((spec_enc_u8(a0.0) + a1.0@) + spec_enc_u64(a2.0)) + spec_enc_u64(a3.0)) + a3.1);
    lemma_app_assoc((((spec_enc_u8(a0.0) + a1.0@) + spec_enc_u64(a2.0)) + spec_enc_u64(a3.0)), spec_enc_u64(a4.0), a4.1);
    assert(s =~= ((((spec_enc_u8(a0.0) + a1.0@) + spec_enc_u64(a2.0)) + spec_enc_u64(a3.0)) + spec_enc_u64(a4.0)) + a4.1);
    lemma_app_assoc(((((spec_enc_u8(a0.0) + a1.0@) + spec_enc_u64(a2.0)) + spec_enc_u64(a3.0)) + spec_enc_u64(a4.0)), spec_enc_u64(a5.0), a5.1);
    assert(s =~= (((((spec_enc_u8(a0.0) + a1.0@) + spec_enc_u64(a2.0)) + spec_enc_u64(a3.0)) + spec_enc_u64(a4.0)) + spec_enc_u64(a5.0)) + a5.1);
    lemma_app_assoc((((((spec_enc_u8(a0.0) + a1.0@) + spec_enc_u64(a2.0)) + spec_enc_u64(a3.0)) + spec_enc_u64(a4.0)) + spec_enc_u64(a5.0)), spec_enc_u64(a6.0), a6.1);
    assert(s =~= ((((((spec_enc_u8(a0.0) + a1.0@) + spec_enc_u64(a2.0)) + spec_enc_u64(a3.0)) + spec_enc_u64(a4.0)) + spec_enc_u64(a5.0)) + spec_enc_u64(a6.0)) + a6.1);
    lemma_app_assoc(((((((spec_enc_u8(a0.0) + a1.0@) + spec_enc_u64(a2.0)) + spec_enc_u64(a3.0)) + spec_enc_u64(a4.0)) + spec_enc_u64(a5.0)) + spec_enc_u64(a6.0)), a7.0@, a7.1);
    assert(s =~= (((((((spec_enc_u8(a0.0) + a1.0@) + spec_enc_u64(a2.0)) + spec_enc_u64(a3.0)) + spec_enc_u64(a4.0)) + spec_enc_u64(a5.0)) + spec_enc_u64(a6.0)) + a7.0@) + a7.1);
    assert(spec_enc_reg_header(spec_dec_reg_header(s)->Some_0.0) == (((((((spec_enc_u8(a0.0) + a1.0@) + spec_enc_u64(a2.0)) + spec_enc_u64(a3.0)) + spec_enc_u64(a4.0)) + spec_enc_u64(a5.0)) + spec_enc_u64(a6.0)) + a7.0@));
}

/// The link word stored at slot `i` of `data`.
pub open spec fn spec_slot_link(data: Seq<u8>, i: int) -> u64 {
    vstd::bytes::spec_u64_from_le_bytes(
        data.subrange(REG_HEADER_SIZE + i * SLOT_SIZE, REG_HEADER_SIZE + i * SLOT_SIZE + 8),
    )
}

/// Zero-copy view over a registry byte range: the buffer, a mirror of
/// its header, the ghost slot contents, and the ghost free chain.
pub struct SafeZeroCopyOrderStorage {
    data: Vec<u8>,
    header: OrderStorageHeader,
    slots: Ghost<Seq<Option<OrderMarker>>>,
    freelist: Ghost<Seq<u64>>,
}

impl SafeZeroCopyOrderStorage {
    /// The slot contents: `None` for a free slot.
    pub closed spec fn spec_slots(self) -> Seq<Option<OrderMarker>> {
        self.slots@
    }

    /// The mirrored header.
    pub closed spec fn spec_header(self) -> OrderStorageHeader {
        self.header
    }

    /// The byte length of the underlying buffer.
    pub closed spec fn spec_data_len(self) -> int {
        self.data@.len() as int
    }

    /// The underlying byte range.
    pub closed spec fn spec_bytes(self) -> Seq<u8> {
        self.data@
    }

    /// Well-formedness: the header mirror matches the header bytes, the
    /// buffer holds every slot, the link words match the slot contents,
    /// the free chain threads through blank allocated slots, and the
    /// count matches the occupied slots.
    pub closed spec fn wf(self) -> bool {
        let h = self.header;
        let d = self.data@;
        let sl = self.slots@;
        let fl = self.freelist@;
        &&& h.version == STORAGE_VERSION
        &&& h.marker_size == MARKER_ENCODED_SIZE
        &&& h.next_free <= h.capacity
        &&& h.count == spec_active_count(sl)
        &&& REG_HEADER_SIZE + h.capacity * SLOT_SIZE <= d.len()
        &&& d.len() <= usize::MAX
        &&& d.subrange(0, REG_HEADER_SIZE as int) == spec_enc_reg_header(h)
        &&& sl.len() == h.capacity
        &&& forall|i: int|
            0 <= i < h.next_free ==> ((#[trigger] sl[i]) is Some <==> spec_slot_link(d, i)
                == LINK_OCCUPIED)
        &&& forall|i: int|
            (0 <= i < h.capacity && (#[trigger] sl[i]) matches Some(m)) ==> (sl[i] matches Some(
                m,
            ) && d.subrange(
                REG_HEADER_SIZE + i * SLOT_SIZE + 8,
                REG_HEADER_SIZE + i * SLOT_SIZE + 8 + MARKER_ENCODED_SIZE,
            ) == spec_enc_order_marker(m))
        &&& forall|i: int| h.next_free <= i < h.capacity ==> (#[trigger] sl[i]) is None
        &&& h.free_head == (if fl.len() == 0 {
            LINK_END
        } else {
            fl[0]
        })
        &&& forall|k: int|
            0 <= k < fl.len() ==> (#[trigger] fl[k]) < h.next_free && sl[fl[k] as int] is None
        &&& forall|k: int|
            0 <= k < fl.len() ==> spec_slot_link(d, (#[trigger] fl[k]) as int) == (if k + 1
                < fl.len() {
                (fl[k + 1] + 1) as u64
            } else {
                LINK_END
            })
        &&& forall|k1: int, k2: int|
            0 <= k1 < k2 < fl.len() ==> (#[trigger] fl[k1]) != (#[trigger] fl[k2])
    }

    /// Initialize a registry byte range: zero it and write a fresh
    /// header.
    pub fn init_in_buffer(data: &mut Vec<u8>, capacity: u64) -> (r: Result<
        (),
        ZeroCopyStorageError,
    >)
        ensures
            match r {
                Ok(_) => capacity >= 1 && REG_HEADER_SIZE + capacity * SLOT_SIZE <= old(
                    data,
                )@.len() && final(data)@.len() == old(data)@.len(),
                Err(e) => if capacity == 0 {
                    e == ZeroCopyStorageError::InvalidCapacity
                } else {
                    e == ZeroCopyStorageError::AccountTooSmall && REG_HEADER_SIZE + capacity
                        * SLOT_SIZE > old(data)@.len()
                },
            },
    {
        if capacity == 0 {
            return Err(ZeroCopyStorageError::InvalidCapacity);
        }
        let marker_size = get_marker_serialized_size();
        proof {
            assert(0 <= (capacity as int) * SLOT_SIZE <= 0xffff_ffff_ffff_ffff_u64 * 56)
                by (nonlinear_arith)
                requires
                    0 <= capacity <= 0xffff_ffff_ffff_ffff_u64 && SLOT_SIZE == 56,
            ;
        }
        let required128: u128 = (REG_HEADER_SIZE as u128) + (capacity as u128) * (SLOT_SIZE
            as u128);
        let n = data.len();
        if required128 > n as u128 {
            return Err(ZeroCopyStorageError::AccountTooSmall);
        }
        let mut i: usize = 0;
        while i < n
            invariant
                n == data@.len(),
                0 <= i <= n,
                data@.len() == old(data)@.len(),
            decreases n - i,
        {
            *vstd::std_specs::vec::vec_index_mut(data, i) = 0;
            i = i + 1;
        }
        let header = OrderStorageHeader {
            version: STORAGE_VERSION,
            _pad1: [0u8; 7],
            capacity,
            count: 0,
            free_head: LINK_END,
            next_free: 0,
            marker_size: marker_size as u64,
            _pad2: [0u8; 24],
        };
        let mut hbytes: Vec<u8> = Vec::new();
        enc_reg_header(&mut hbytes, &header);
        proof {
            lemma_reg_header_size(header);
        }
        write_bytes_at(data, 0, &hbytes);
        Ok(())
    }

    /// Load a registry from a byte range, validating the header, every
    /// occupied slot's marker, and the free chain.
    pub fn load(data: Vec<u8>) -> (r: Result<SafeZeroCopyOrderStorage, ZeroCopyStorageError>)
        ensures
            match r {
                Ok(st) => {
                    &&& st.wf()
                    &&& st.spec_bytes() == data@
                    &&& st.spec_data_len() == data@.len()
                    &&& (spec_dec_reg_header(data@) matches Some(h) && st.spec_header() == h.0)
                    &&& st.spec_slots().len() == st.spec_header().capacity
                    &&& forall|i: int|
                        0 <= i < st.spec_header().next_free ==> ((
                        #[trigger] st.spec_slots()[i]) is Some <==> spec_slot_link(data@, i)
                            == LINK_OCCUPIED)
                    &&& forall|i: int|
                        st.spec_header().next_free <= i < st.spec_header().capacity ==> (
                        #[trigger] st.spec_slots()[i]) is None
                    &&& forall|i: int|
                        (0 <= i < st.spec_header().capacity && (
                        #[trigger] st.spec_slots()[i]) is Some) ==> (spec_dec_order_marker(
                            data@.skip(REG_HEADER_SIZE + i * SLOT_SIZE + 8),
                        ) matches Some(v) && v.0 == st.spec_slots()[i]->Some_0)
                },
                Err(e) => {
                    &&& !(exists|st2: SafeZeroCopyOrderStorage|
                        (#[trigger] st2.wf()) && st2.spec_bytes() == data@)
                    &&& match spec_dec_reg_header(data@) {
                        None => e == ZeroCopyStorageError::AccountTooSmall,
                        Some(h) => {
                            let hd = h.0;
                            if hd.version != STORAGE_VERSION {
                                e == ZeroCopyStorageError::UnsupportedVersion
                            } else if hd.marker_size != MARKER_ENCODED_SIZE {
                                e == ZeroCopyStorageError::InvalidMarkerSize
                            } else if REG_HEADER_SIZE + hd.capacity * SLOT_SIZE > data@.len() {
                                e == ZeroCopyStorageError::AccountTooSmall
                            } else if hd.next_free > hd.capacity {
                                e == ZeroCopyStorageError::CorruptedData
                            } else {
                                e == ZeroCopyStorageError::CorruptedData
                            }
                        },
                    }
                },
            },
    {
        proof {
            assert(data@.skip(0) =~= data@);
        }
        let header = match dec_reg_header(&data, 0) {
            Some(v) => v.0,
            None => {
                proof {
                    assert(data@.skip(0) =~= data@);
                    assert forall|st2: SafeZeroCopyOrderStorage| ((#[trigger] st2.wf()) && st2.spec_bytes()
                    == data@) implies false by {
                        assert((st2.spec_header().capacity as int) * 56 >= 0)
                            by (nonlinear_arith);
                        assert(st2.spec_bytes().len() >= REG_HEADER_SIZE);
                        lemma_reg_header_total(data@);
                    }
                }
                return Err(ZeroCopyStorageError::AccountTooSmall)
            },
        };
        proof {
            assert(data@.skip(0) =~= data@);
            assert(spec_dec_reg_header(data@) matches Some(hh) && hh.0 == header);
            assert forall|st2: SafeZeroCopyOrderStorage| ((#[trigger] st2.wf())
                && st2.spec_bytes() == data@) implies st2.spec_header() == header by {
                lemma_wf_reg_header_decodes(st2);
            }
        }
        if header.version != STORAGE_VERSION {
            return Err(ZeroCopyStorageError::UnsupportedVersion);
        }
        let current_marker_size = get_marker_serialized_size();
        if header.marker_size != current_marker_size as u64 {
            return Err(ZeroCopyStorageError::InvalidMarkerSize);
        }
        proof {
            assert(0 <= (header.capacity as int) * SLOT_SIZE <= 0xffff_ffff_ffff_ffff_u64 * 56)
                by (nonlinear_arith)
                requires
                    0 <= header.capacity <= 0xffff_ffff_ffff_ffff_u64 && SLOT_SIZE == 56,
            ;
        }
        let required128: u128 = (REG_HEADER_SIZE as u128) + (header.capacity as u128) * (SLOT_SIZE
            as u128);
        if required128 > data.len() as u128 {
            return Err(ZeroCopyStorageError::AccountTooSmall);
        }
        if header.next_free > header.capacity {
            return Err(ZeroCopyStorageError::CorruptedData);
        }
        let nf = header.next_free as usize;
        let mut slots: Ghost<Seq<Option<OrderMarker>>> = Ghost(Seq::empty());
        let mut i: usize = 0;
        while i < nf
            invariant
                nf == header.next_free <= header.capacity,
                REG_HEADER_SIZE + header.capacity * 56 <= data@.len() <= usize::MAX,
                0 <= i <= nf,
                slots@.len() == i,
                forall|j: int|
                    0 <= j < i ==> ((#[trigger] slots@[j]) is Some <==> spec_slot_link(data@, j)
                        == LINK_OCCUPIED),
                forall|j: int|
                    (0 <= j < i && (#[trigger] slots@[j]) matches Some(m)) ==> (
                    slots@[j] matches Some(m) && data@.subrange(
                        REG_HEADER_SIZE + j * SLOT_SIZE + 8,
                        REG_HEADER_SIZE + j * SLOT_SIZE + 8 + MARKER_ENCODED_SIZE,
                    ) == spec_enc_order_marker(m)),
                (spec_dec_reg_header(data@) matches Some(hh) && hh.0 == header),
                header.version == STORAGE_VERSION,
                header.marker_size == MARKER_ENCODED_SIZE,
                forall|st2: SafeZeroCopyOrderStorage|
                    ((#[trigger] st2.wf()) && st2.spec_bytes() == data@) ==> st2.spec_header()
                        == header,
            decreases nf - i,
        {
            proof {
                assert(0 <= (i as int) * 56 && (i as int) * 56 + 56 <= (header.capacity as int)
                    * 56) by (nonlinear_arith)
                    requires
                        0 <= i < header.next_free <= header.capacity,
                ;
            }
            let off = REG_HEADER_SIZE + i * SLOT_SIZE;
            let link = match dec_u64(&data, off) {
                Some(v) => v.0,
                None => {
                    proof {
                        assert(false);
                    }
                    return Err(ZeroCopyStorageError::CorruptedData)
                },
            };
            proof {
                lemma_prim_sound();
                assert(data@.skip(off as int).take(8) =~= data@.subrange(
                    off as int,
                    off as int + 8,
                ));
                assert(link == spec_slot_link(data@, i as int));
            }
            if link == LINK_OCCUPIED {
                let m = match dec_order_marker(&data, off + 8) {
                    Some(v) => v,
                    None => {
                        proof {
                            assert forall|st2: SafeZeroCopyOrderStorage| ((#[trigger] st2.wf()) && st2.spec_bytes()
                    == data@) implies false by {
                                lemma_wf_reg_header_decodes(st2);
                                assert(st2.spec_slots()[i as int] is Some);
                                lemma_wf_marker_decodes(st2, i as int);
                            }
                        }
                        return Err(ZeroCopyStorageError::CorruptedData)
                    },
                };
                proof {
                    lemma_order_marker_sound(data@.skip(off as int + 8));
                    lemma_marker_size(m.0);
                    assert(data@.subrange(
                        off as int + 8,
                        off as int + 8 + MARKER_ENCODED_SIZE,
                    ) =~= spec_enc_order_marker(m.0));
                    slots@ = slots@.push(Some(m.0));
                }
            } else {
                proof {
                    slots@ = slots@.push(None);
                }
            }
            i = i + 1;
        }
        proof {
            let pad = Seq::new((header.capacity - slots@.len()) as nat, |k: int| None::<OrderMarker>);
            slots@ = slots@ + pad;
        }
        let ghost gslots = slots@;
        proof {
            assert(forall|k: int|
                header.next_free <= k < gslots.len() ==> (#[trigger] gslots[k]) is None);
        }
        let mut freelist: Ghost<Seq<u64>> = Ghost(Seq::empty());
        let mut visited: Vec<bool> = Vec::new();
        let mut vi: usize = 0;
        while vi < nf
            invariant
                visited@.len() == vi,
                0 <= vi <= nf,
                forall|k: int| 0 <= k < vi ==> (#[trigger] visited@[k]) == false,
            decreases nf - vi,
        {
            visited.push(false);
            vi = vi + 1;
        }
        let mut walk: u64 = header.free_head;
        let mut steps: u64 = 0;
        proof {
            assert forall|st2: SafeZeroCopyOrderStorage| ((#[trigger] st2.wf())
                && st2.spec_bytes() == data@) implies (st2.spec_header() == header && (
            header.free_head != LINK_END ==> st2.freelist@.len() > 0 && st2.freelist@[0]
                == header.free_head)) by {
                lemma_wf_reg_header_decodes(st2);
            }
        }
        while walk != LINK_END
            invariant
                nf == header.next_free,
                nf <= header.capacity,
                REG_HEADER_SIZE + header.capacity * 56 <= data@.len() <= usize::MAX,
                gslots.len() == header.capacity,
                visited@.len() == nf,
                forall|j: int|
                    0 <= j < header.next_free ==> ((#[trigger] gslots[j]) is Some
                        <==> spec_slot_link(data@, j) == LINK_OCCUPIED),
                steps <= header.capacity,
                freelist@.len() == steps,
                forall|k: int|
                    0 <= k < freelist@.len() ==> (#[trigger] freelist@[k]) < header.next_free
                        && gslots[freelist@[k] as int] is None,
                forall|k: int|
                    0 <= k < freelist@.len() ==> spec_slot_link(
                        data@,
                        (#[trigger] freelist@[k]) as int,
                    ) == (if k + 1 < freelist@.len() {
                        (freelist@[k + 1] + 1) as u64
                    } else if walk == LINK_END {
                        LINK_END
                    } else {
                        (walk + 1) as u64
                    }),
                forall|i: int|
                    0 <= i < nf ==> ((#[trigger] visited@[i]) <==> freelist@.contains(i as u64)),
                forall|k1: int, k2: int|
                    0 <= k1 < k2 < freelist@.len() ==> (#[trigger] freelist@[k1]) != (
                    #[trigger] freelist@[k2]),
                header.free_head == (if freelist@.len() == 0 {
                    (if walk == LINK_END {
                        LINK_END
                    } else {
                        walk
                    })
                } else {
                    freelist@[0]
                }),
                (spec_dec_reg_header(data@) matches Some(hh) && hh.0 == header),
                header.version == STORAGE_VERSION,
                header.marker_size == MARKER_ENCODED_SIZE,
                forall|st2: SafeZeroCopyOrderStorage|
                    ((#[trigger] st2.wf()) && st2.spec_bytes() == data@) ==> st2.spec_header()
                        == header,
                forall|st2: SafeZeroCopyOrderStorage|
                    ((#[trigger] st2.wf()) && st2.spec_bytes() == data@) ==> (st2.freelist@.len()
                        >= steps && (forall|k: int|
                        0 <= k < steps ==> (#[trigger] st2.freelist@[k]) == freelist@[k]) && (walk
                        != LINK_END ==> st2.freelist@.len() > steps && st2.freelist@[steps as int]
                        == walk)),
            decreases header.capacity - steps,
        {
            let ghost cur = walk;
            let ghost old_steps = steps as int;
            let ghost old_fl = freelist@;
            if steps >= header.capacity {
                proof {
                    assert forall|st2: SafeZeroCopyOrderStorage| ((#[trigger] st2.wf()) && st2.spec_bytes()
                    == data@) implies false by {
                        let fl2 = st2.freelist@;
                        assert(fl2.len() > steps);
                        lemma_distinct_below_bound(fl2, st2.spec_header().capacity as int);
                    }
                }
                return Err(ZeroCopyStorageError::CorruptedData);
            }
            if walk >= header.next_free {
                proof {
                    assert forall|st2: SafeZeroCopyOrderStorage| ((#[trigger] st2.wf()) && st2.spec_bytes()
                    == data@) implies false by {
                        let fl2 = st2.freelist@;
                        assert(fl2.len() > steps && fl2[steps as int] == walk);
                        assert(fl2[steps as int] < st2.spec_header().next_free);
                    }
                }
                return Err(ZeroCopyStorageError::CorruptedData);
            }
            let i = walk as usize;
            if visited[i] {
                proof {
                    assert(freelist@.contains(walk));
                    let kj = choose|kj: int| 0 <= kj < freelist@.len() && freelist@[kj] == walk;
                    assert forall|st2: SafeZeroCopyOrderStorage| ((#[trigger] st2.wf()) && st2.spec_bytes()
                    == data@) implies false by {
                        let fl2 = st2.freelist@;
                        assert(fl2[kj] == freelist@[kj]);
                        assert(fl2.len() > steps && fl2[steps as int] == walk);
                        assert(fl2[kj] != fl2[steps as int]);
                    }
                }
                return Err(ZeroCopyStorageError::CorruptedData);
            }
            proof {
                assert(0 <= (i as int) * 56 && (i as int) * 56 + 56 <= (header.capacity as int)
                    * 56) by (nonlinear_arith)
                    requires
                        0 <= i < header.next_free <= header.capacity,
                ;
            }
            let off = REG_HEADER_SIZE + i * SLOT_SIZE;
            let link = match dec_u64(&data, off) {
                Some(v) => v.0,
                None => {
                    proof {
                        assert(false);
                    }
                    return Err(ZeroCopyStorageError::CorruptedData)
                },
            };
            proof {
                assert(data@.skip(off as int).take(8) =~= data@.subrange(
                    off as int,
                    off as int + 8,
                ));
                assert(link == spec_slot_link(data@, i as int));
            }
            if link == LINK_OCCUPIED {
                proof {
                    assert forall|st2: SafeZeroCopyOrderStorage| ((#[trigger] st2.wf()) && st2.spec_bytes()
                    == data@) implies false by {
                        let fl2 = st2.freelist@;
                        assert(fl2.len() > steps && fl2[steps as int] == walk);
                        assert(st2.spec_slots()[walk as int] is None);
                        assert(spec_slot_link(data@, walk as int) != LINK_OCCUPIED);
                    }
                }
                return Err(ZeroCopyStorageError::CorruptedData);
            }
            let ghost prev_fl = freelist@;
            proof {
                assert(!prev_fl.contains(walk));
                freelist@ = freelist@.push(walk);
                assert(forall|k: int|
                    0 <= k < prev_fl.len() ==> #[trigger] freelist@[k] == prev_fl[k]);
                assert(freelist@[freelist@.len() - 1] == walk);
                assert forall|x: u64| #[trigger] freelist@.contains(x) implies (prev_fl.contains(x)
                    || x == walk) by {
                    let k = choose|k: int| 0 <= k < freelist@.len() && freelist@[k] == x;
                    if k < prev_fl.len() {
                        assert(prev_fl[k] == x);
                    }
                }
                assert forall|x: u64| prev_fl.contains(x) implies #[trigger] freelist@.contains(
                    x,
                ) by {
                    let k = choose|k: int| 0 <= k < prev_fl.len() && prev_fl[k] == x;
                    assert(freelist@[k] == x);
                }
                assert(freelist@.contains(walk));
            }
            *vstd::std_specs::vec::vec_index_mut(&mut visited, i) = true;
            if link == LINK_END {
                walk = LINK_END;
            } else {
                if link < 1 || link - 1 >= header.next_free {
                    return Err(ZeroCopyStorageError::CorruptedData);
                }
                let nxt = link - 1;
                let nxt_off = REG_HEADER_SIZE + (nxt as usize) * SLOT_SIZE;
                proof {
                    assert(0 <= (nxt as int) * 56 && (nxt as int) * 56 + 56 <= (header.capacity
                        as int) * 56) by (nonlinear_arith)
                        requires
                            0 <= nxt < header.next_free <= header.capacity,
                    ;
                }
                let nxt_link = match dec_u64(&data, nxt_off) {
                    Some(v) => v.0,
                    None => {
                        proof {
                            assert(false);
                        }
                        return Err(ZeroCopyStorageError::CorruptedData)
                    },
                };
                proof {
                    assert(data@.skip(nxt_off as int).take(8) =~= data@.subrange(
                        nxt_off as int,
                        nxt_off as int + 8,
                    ));
                    assert(nxt_link == spec_slot_link(data@, nxt as int));
                }
                if nxt_link == LINK_OCCUPIED {
                    proof {
                        assert forall|st2: SafeZeroCopyOrderStorage| ((#[trigger] st2.wf()) && st2.spec_bytes()
                    == data@) implies false by {
                            let fl2 = st2.freelist@;
                            assert(fl2.len() > steps && fl2[steps as int] == walk);
                            assert(spec_slot_link(data@, fl2[steps as int] as int) == (if steps
                                + 1 < fl2.len() {
                                (fl2[steps as int + 1] + 1) as u64
                            } else {
                                LINK_END
                            }));
                            assert(steps + 1 < fl2.len());
                            assert(fl2[steps as int + 1] < st2.spec_header().next_free);
                            assert(fl2[steps as int + 1] == nxt);
                            assert(st2.spec_slots()[nxt as int] is None);
                        }
                    }
                    return Err(ZeroCopyStorageError::CorruptedData);
                }
                walk = nxt;
            }
            steps = steps + 1;
            proof {
                assert forall|st2: SafeZeroCopyOrderStorage| ((#[trigger] st2.wf())
                    && st2.spec_bytes() == data@) implies (st2.freelist@.len() >= steps && (
                forall|k: int| 0 <= k < steps ==> (#[trigger] st2.freelist@[k]) == freelist@[k])
                    && (walk != LINK_END ==> st2.freelist@.len() > steps
                    && st2.freelist@[steps as int] == walk)) by {
                    let fl2 = st2.freelist@;
                    assert(fl2.len() > old_steps && fl2[old_steps] == cur);
                    assert(spec_slot_link(data@, fl2[old_steps] as int) == (if old_steps + 1
                        < fl2.len() {
                        (fl2[old_steps + 1] + 1) as u64
                    } else {
                        LINK_END
                    }));
                    assert forall|k: int| 0 <= k < steps implies (#[trigger] fl2[k])
                        == freelist@[k] by {
                        if k < old_steps {
                            assert(fl2[k] == old_fl[k]);
                            assert(freelist@[k] == old_fl[k]);
                        } else {
                            assert(freelist@[k] == cur);
                        }
                    }
                    if walk != LINK_END {
                        assert(old_steps + 1 < fl2.len());
                        assert(fl2[old_steps + 1] < st2.spec_header().next_free);
                        assert(fl2[old_steps + 1] == walk);
                    }
                }
            }
        }
        let mut j: usize = 0;
        let mut occupied: u64 = 0;
        while j < nf
            invariant
                nf == header.next_free,
                nf <= header.capacity,
                gslots.len() == header.capacity,
                0 <= j <= nf,
                occupied == spec_active_count(gslots.take(j as int)),
                occupied <= j,
                forall|jj: int|
                    0 <= jj < header.next_free ==> ((#[trigger] gslots[jj]) is Some
                        <==> spec_slot_link(data@, jj) == LINK_OCCUPIED),
                REG_HEADER_SIZE + header.capacity * 56 <= data@.len() <= usize::MAX,
                (spec_dec_reg_header(data@) matches Some(hh) && hh.0 == header),
            decreases nf - j,
        {
            proof {
                assert(gslots.take(j as int + 1).drop_last() =~= gslots.take(j as int));
                assert(gslots.take(j as int + 1).last() == gslots[j as int]);
                lemma_active_count_bounds(gslots.take(j as int));
                assert(0 <= (j as int) * 56 && (j as int) * 56 + 56 <= (header.capacity as int)
                    * 56) by (nonlinear_arith)
                    requires
                        0 <= j < header.next_free <= header.capacity,
                ;
            }
            let off = REG_HEADER_SIZE + j * SLOT_SIZE;
            let link = match dec_u64(&data, off) {
                Some(v) => v.0,
                None => {
                    proof {
                        assert(false);
                    }
                    return Err(ZeroCopyStorageError::CorruptedData)
                },
            };
            proof {
                assert(data@.skip(off as int).take(8) =~= data@.subrange(
                    off as int,
                    off as int + 8,
                ));
                assert(link == spec_slot_link(data@, j as int));
            }
            if link == LINK_OCCUPIED {
                occupied = occupied + 1;
            }
            j = j + 1;
        }
        proof {
            lemma_active_count_none_tail(gslots, nf as int);
        }
        if header.count != occupied {
            proof {
                assert forall|st2: SafeZeroCopyOrderStorage| ((#[trigger] st2.wf()) && st2.spec_bytes()
                    == data@) implies false by {
                    lemma_wf_reg_header_decodes(st2);
                    let sl2 = st2.spec_slots();
                    assert forall|ii: int| 0 <= ii < gslots.len() implies ((
                    #[trigger] gslots[ii]) is Some <==> (#[trigger] sl2[ii]) is Some) by {
                        if ii >= header.next_free {
                            assert(gslots[ii] is None);
                            assert(sl2[ii] is None);
                        }
                    }
                    lemma_active_count_congruent(gslots, sl2);
                }
            }
            return Err(ZeroCopyStorageError::CorruptedData);
        }
        proof {
            assert forall|i2: int| (0 <= i2 < header.capacity && (#[trigger] gslots[i2]) is Some)
                implies (spec_dec_order_marker(
                data@.skip(REG_HEADER_SIZE + i2 * SLOT_SIZE + 8),
            ) matches Some(v) && v.0 == gslots[i2]->Some_0) by {
                if i2 >= header.next_free {
                    assert(gslots[i2] is None);
                }
                assert(0 <= i2 * 56 && i2 * 56 + 56 <= (header.capacity as int) * 56)
                    by (nonlinear_arith)
                    requires
                        0 <= i2 < header.capacity,
                ;
                let m = gslots[i2]->Some_0;
                lemma_marker_size(m);
                crate::zero_copy_market_order_log::lemma_skip_concat(
                    data@,
                    spec_enc_order_marker(m),
                    REG_HEADER_SIZE + i2 * SLOT_SIZE + 8,
                );
                lemma_order_marker_round_trip(
                    m,
                    data@.skip(REG_HEADER_SIZE + i2 * SLOT_SIZE + 8 + MARKER_ENCODED_SIZE),
                );
            }
        }
        let st = SafeZeroCopyOrderStorage { data, header, slots, freelist };
        proof {
            assert(st.spec_slots() == gslots);
            assert(st.data@.subrange(0, REG_HEADER_SIZE as int) =~= spec_enc_reg_header(header))
                by {
                lemma_reg_header_sound(st.data@.skip(0));
                assert(st.data@.skip(0) =~= st.data@);
                lemma_reg_header_size(header);
            };
        }
        Ok(st)
    }

    /// Give the byte range back, for the host to persist.
    pub fn into_bytes(self) -> (r: Vec<u8>)
        ensures
            r@ == self.spec_bytes(),
    {
        self.data
    }
}

impl SafeZeroCopyOrderStorage {
    /// Re-encode the header mirror into the buffer.
    fn store_header(&mut self)
        requires
            REG_HEADER_SIZE <= old(self).data@.len(),
        ensures
            final(self).data@.len() == old(self).data@.len(),
            final(self).header == old(self).header,
            final(self).slots == old(self).slots,
            final(self).freelist == old(self).freelist,
            final(self).data@.subrange(0, REG_HEADER_SIZE as int) == spec_enc_reg_header(
                old(self).header,
            ),
            forall|i: int|
                REG_HEADER_SIZE <= i < old(self).data@.len() ==> final(self).data@[i] == old(
                    self,
                ).data@[i],
    {
        let mut hbytes: Vec<u8> = Vec::new();
        enc_reg_header(&mut hbytes, &self.header);
        proof {
            lemma_reg_header_size(self.header);
        }
        write_bytes_at(&mut self.data, 0, &hbytes);
        proof {
            assert(final(self).data@.subrange(0, REG_HEADER_SIZE as int) =~= spec_enc_reg_header(
                old(self).header,
            ));
        }
    }

    /// Write `link` and `marker` into slot `idx`.
    fn store_slot(&mut self, idx: u64, link: u64, marker: &OrderMarker)
        requires
            old(self).wf(),
            idx < old(self).spec_header().capacity,
        ensures
            final(self).data@.len() == old(self).data@.len(),
            final(self).header == old(self).header,
            final(self).slots == old(self).slots,
            final(self).freelist == old(self).freelist,
            spec_slot_link(final(self).data@, idx as int) == link,
            final(self).data@.subrange(
                REG_HEADER_SIZE + idx * SLOT_SIZE + 8,
                REG_HEADER_SIZE + idx * SLOT_SIZE + 8 + MARKER_ENCODED_SIZE,
            ) == spec_enc_order_marker(*marker),
            forall|i: int|
                0 <= i < old(self).data@.len() && !(REG_HEADER_SIZE + idx * SLOT_SIZE <= i
                    < REG_HEADER_SIZE + idx * SLOT_SIZE + SLOT_SIZE) ==> final(self).data@[i]
                    == old(self).data@[i],
    {
        proof {
            let ghost cap = old(self).spec_header().capacity;
            assert(0 <= (idx as int) * 56 && (idx as int) * 56 + 56 <= (cap as int) * 56)
                by (nonlinear_arith)
                requires
                    0 <= idx < cap,
            ;
        }
        let off = REG_HEADER_SIZE + (idx as usize) * SLOT_SIZE;
        let mut sbytes: Vec<u8> = Vec::new();
        enc_u64(&mut sbytes, link);
        enc_order_marker(&mut sbytes, marker);
        proof {
            lemma_prim_round_trip();
            lemma_marker_size(*marker);
            assert(sbytes@ =~= spec_enc_u64(link) + spec_enc_order_marker(*marker));
        }
        proof {
            assert(sbytes@.len() == 56);
        }
        write_bytes_at(&mut self.data, off, &sbytes);
        proof {
            vstd::bytes::lemma_auto_spec_u64_to_from_le_bytes();
            assert(final(self).data@.subrange(off as int, off as int + 56) == sbytes@);
            assert(final(self).data@.subrange(off as int, off as int + 8) =~= sbytes@.subrange(
                0,
                8,
            ));
            assert(sbytes@.subrange(0, 8) =~= spec_enc_u64(link));
            assert(final(self).data@.subrange(
                off as int + 8,
                off as int + 8 + MARKER_ENCODED_SIZE,
            ) =~= sbytes@.subrange(8, 56));
            assert(sbytes@.subrange(8, 56) =~= spec_enc_order_marker(*marker));
        }
    }

    /// Write only the link word of slot `idx`.
    fn store_link(&mut self, idx: u64, link: u64)
        requires
            old(self).wf(),
            idx < old(self).spec_header().capacity,
        ensures
            final(self).data@.len() == old(self).data@.len(),
            final(self).header == old(self).header,
            final(self).slots == old(self).slots,
            final(self).freelist == old(self).freelist,
            spec_slot_link(final(self).data@, idx as int) == link,
            forall|i: int|
                0 <= i < old(self).data@.len() && !(REG_HEADER_SIZE + idx * SLOT_SIZE <= i
                    < REG_HEADER_SIZE + idx * SLOT_SIZE + 8) ==> final(self).data@[i] == old(
                    self,
                ).data@[i],
    {
        proof {
            let ghost cap = old(self).spec_header().capacity;
            assert(0 <= (idx as int) * 56 && (idx as int) * 56 + 56 <= (cap as int) * 56)
                by (nonlinear_arith)
                requires
                    0 <= idx < cap,
            ;
        }
        let off = REG_HEADER_SIZE + (idx as usize) * SLOT_SIZE;
        let mut sbytes: Vec<u8> = Vec::new();
        enc_u64(&mut sbytes, link);
        proof {
            lemma_prim_round_trip();
            assert(sbytes@ =~= spec_enc_u64(link));
            assert(sbytes@.len() == 8);
        }
        write_bytes_at(&mut self.data, off, &sbytes);
        proof {
            vstd::bytes::lemma_auto_spec_u64_to_from_le_bytes();
            assert(final(self).data@.subrange(off as int, off as int + 8) == sbytes@);
        }
    }

    /// Insert a marker, returning its slot: the head of the free chain
    /// when one is available, else the next unused slot, else
    /// `StorageFull`.
    pub fn insert(&mut self, marker: &OrderMarker) -> (r: Result<u64, ZeroCopyStorageError>)
        requires
            old(self).wf(),
        ensures
            final(self).wf(),
            final(self).spec_header().capacity == old(self).spec_header().capacity,
            match r {
                Ok(idx) => {
                    &&& idx < old(self).spec_header().capacity
                    &&& old(self).spec_slots()[idx as int] is None
                    &&& final(self).spec_slots() == old(self).spec_slots().update(
                        idx as int,
                        Some(*marker),
                    )
                    &&& final(self).spec_header().count == old(self).spec_header().count + 1
                },
                Err(e) => {
                    &&& e == ZeroCopyStorageError::StorageFull
                    &&& old(self).spec_header().free_head == LINK_END
                    &&& old(self).spec_header().next_free >= old(self).spec_header().capacity
                    &&& final(self).spec_slots() == old(self).spec_slots()
                    &&& final(self).spec_header() == old(self).spec_header()
                },
            },
    {
        proof {
            lemma_active_count_bounds(self.slots@);
            assert((old(self).spec_header().capacity as int) * 56 <= usize::MAX);
            let ghost cap0 = old(self).spec_header().capacity;
            assert(cap0 < u64::MAX) by (nonlinear_arith)
                requires
                    (cap0 as int) * 56 <= usize::MAX as int && usize::MAX <= u64::MAX,
            ;
        }
        let h = self.header;
        let (slot_idx, new_free_head, new_next_free): (u64, u64, u64) = if h.free_head != LINK_END {
            let idx = self.header.free_head;
            proof {
                assert(self.freelist@.len() > 0);
                assert(self.freelist@[0] == idx);
                assert(0 <= (idx as int) * 56 && (idx as int) * 56 + 56 <= (h.capacity as int) * 56)
                    by (nonlinear_arith)
                    requires
                        0 <= idx < h.next_free <= h.capacity,
                ;
            }
            let off = REG_HEADER_SIZE + (idx as usize) * SLOT_SIZE;
            let stored = match dec_u64(&self.data, off) {
                Some(v) => v.0,
                None => { return Err(ZeroCopyStorageError::CorruptedData) },
            };
            proof {
                assert(self.data@.skip(off as int).take(8) =~= self.data@.subrange(
                    off as int,
                    off as int + 8,
                ));
                assert(stored == spec_slot_link(self.data@, idx as int));
            }
            let nf2: u64 = if stored == LINK_END {
                LINK_END
            } else {
                stored - 1
            };
            (idx, nf2, h.next_free)
        } else if h.next_free < h.capacity {
            (h.next_free, h.free_head, h.next_free + 1)
        } else {
            return Err(ZeroCopyStorageError::StorageFull);
        };
        let ghost was_from_chain = h.free_head != LINK_END;
        self.store_slot(slot_idx, LINK_OCCUPIED, marker);
        let ghost d1 = self.data@;
        let mut new_header = self.header;
        new_header.free_head = new_free_head;
        new_header.next_free = new_next_free;
        new_header.count = new_header.count + 1;
        self.header = new_header;
        self.store_header();
        proof {
            let old_slots = old(self).spec_slots();
            lemma_active_count_update(old_slots, slot_idx as int, Some(*marker));
            self.slots@ = self.slots@.update(slot_idx as int, Some(*marker));
            if was_from_chain {
                self.freelist@ = self.freelist@.drop_first();
                assert(forall|k: int|
                    0 <= k < self.freelist@.len() ==> #[trigger] self.freelist@[k] == old(
                        self,
                    ).freelist@[k + 1]);
            }
            assert(0 <= (slot_idx as int) * 56 && (slot_idx as int) * 56 + 56 <= (h.capacity
                as int) * 56) by (nonlinear_arith)
                requires
                    0 <= slot_idx < h.capacity,
            ;
            assert(self.data@.subrange(
                REG_HEADER_SIZE + slot_idx * 56,
                REG_HEADER_SIZE + slot_idx * 56 + 8,
            ) =~= d1.subrange(REG_HEADER_SIZE + slot_idx * 56, REG_HEADER_SIZE + slot_idx * 56 + 8));
            assert(spec_slot_link(self.data@, slot_idx as int) == LINK_OCCUPIED);
            assert(self.data@.subrange(
                REG_HEADER_SIZE + slot_idx * 56 + 8,
                REG_HEADER_SIZE + slot_idx * 56 + 8 + MARKER_ENCODED_SIZE,
            ) =~= d1.subrange(
                REG_HEADER_SIZE + slot_idx * 56 + 8,
                REG_HEADER_SIZE + slot_idx * 56 + 8 + MARKER_ENCODED_SIZE,
            ));
            assert forall|i: int|
                0 <= i < self.header.next_free implies ((#[trigger] self.slots@[i]) is Some
                <==> spec_slot_link(self.data@, i) == LINK_OCCUPIED) by {
                if i != slot_idx {
                    assert(spec_slot_link(self.data@, i) =~= spec_slot_link(old(self).data@, i))
                        by {
                        assert(0 <= i * 56 && i * 56 + 56 <= (h.capacity as int) * 56 && (i + 1)
                            * 56 <= (slot_idx as int) * 56 || (slot_idx as int + 1) * 56 <= i * 56)
                            by (nonlinear_arith)
                            requires
                                0 <= i < h.capacity && 0 <= slot_idx < h.capacity && i != slot_idx,
                        ;
                        assert(self.data@.subrange(REG_HEADER_SIZE + i * 56, REG_HEADER_SIZE + i
                            * 56 + 8) =~= old(self).data@.subrange(
                            REG_HEADER_SIZE + i * 56,
                            REG_HEADER_SIZE + i * 56 + 8,
                        ));
                    };
                    if i < h.next_free {
                    } else {
                        assert(i < self.header.next_free && self.header.next_free == h.next_free
                            + 1 && i >= h.next_free);
                        assert(i == h.next_free && !was_from_chain);
                        assert(false);
                    }
                }
            }
            assert forall|i: int|
                0 <= i < self.header.capacity && (#[trigger] self.slots@[i]) matches Some(m)
                implies (self.slots@[i] matches Some(m) && self.data@.subrange(
                REG_HEADER_SIZE + i * SLOT_SIZE + 8,
                REG_HEADER_SIZE + i * SLOT_SIZE + 8 + MARKER_ENCODED_SIZE,
            ) == spec_enc_order_marker(m)) by {
                if i != slot_idx {
                    assert(0 <= i * 56 && i * 56 + 56 <= (h.capacity as int) * 56 && ((i + 1) * 56
                        <= (slot_idx as int) * 56 || (slot_idx as int + 1) * 56 <= i * 56))
                        by (nonlinear_arith)
                        requires
                            0 <= i < h.capacity && 0 <= slot_idx < h.capacity && i != slot_idx,
                    ;
                    assert(self.data@.subrange(
                        REG_HEADER_SIZE + i * 56 + 8,
                        REG_HEADER_SIZE + i * 56 + 8 + MARKER_ENCODED_SIZE,
                    ) =~= old(self).data@.subrange(
                        REG_HEADER_SIZE + i * 56 + 8,
                        REG_HEADER_SIZE + i * 56 + 8 + MARKER_ENCODED_SIZE,
                    ));
                }
            }
            assert forall|k: int|
                0 <= k < self.freelist@.len() implies spec_slot_link(
                self.data@,
                (#[trigger] self.freelist@[k]) as int,
            ) == (if k + 1 < self.freelist@.len() {
                (self.freelist@[k + 1] + 1) as u64
            } else {
                LINK_END
            }) by {
                let f = self.freelist@[k] as int;
                assert(f != slot_idx);
                assert(0 <= f * 56 && f * 56 + 56 <= (h.capacity as int) * 56 && ((f + 1) * 56 <= (
                slot_idx as int) * 56 || (slot_idx as int + 1) * 56 <= f * 56))
                    by (nonlinear_arith)
                    requires
                        0 <= f < h.capacity && 0 <= slot_idx < h.capacity && f != slot_idx,
                ;
                assert(self.data@.subrange(REG_HEADER_SIZE + f * 56, REG_HEADER_SIZE + f * 56 + 8)
                    =~= old(self).data@.subrange(
                    REG_HEADER_SIZE + f * 56,
                    REG_HEADER_SIZE + f * 56 + 8,
                ));
            }
        }
        Ok(slot_idx)
    }
}

impl SafeZeroCopyOrderStorage {
    /// Read the marker in slot `idx`, which must be occupied.
    fn read_marker(&self, idx: u64) -> (r: Result<OrderMarker, ZeroCopyStorageError>)
        requires
            self.wf(),
            idx < self.spec_header().capacity,
            self.spec_slots()[idx as int] is Some,
        ensures
            match r {
                Ok(m) => self.spec_slots()[idx as int] == Some(m),
                Err(_) => false,
            },
    {
        proof {
            assert(0 <= (idx as int) * 56 && (idx as int) * 56 + 56 <= (self.spec_header().capacity
                as int) * 56) by (nonlinear_arith)
                requires
                    0 <= idx < self.spec_header().capacity,
            ;
        }
        let off = REG_HEADER_SIZE + (idx as usize) * SLOT_SIZE + 8;
        let ghost m = self.spec_slots()[idx as int]->Some_0;
        proof {
            lemma_marker_size(m);
            crate::zero_copy_market_order_log::lemma_skip_concat(
                self.data@,
                spec_enc_order_marker(m),
                off as int,
            );
            lemma_order_marker_round_trip(m, self.data@.skip(off + MARKER_ENCODED_SIZE));
        }
        match dec_order_marker(&self.data, off) {
            Some(v) => Ok(v.0),
            None => Err(ZeroCopyStorageError::CorruptedData),
        }
    }

    /// Read the link word of slot `idx`.
    fn read_link(&self, idx: u64) -> (r: Result<u64, ZeroCopyStorageError>)
        requires
            self.wf(),
            idx < self.spec_header().capacity,
        ensures
            match r {
                Ok(v) => v == spec_slot_link(self.data@, idx as int),
                Err(_) => false,
            },
    {
        proof {
            assert(0 <= (idx as int) * 56 && (idx as int) * 56 + 56 <= (self.spec_header().capacity
                as int) * 56) by (nonlinear_arith)
                requires
                    0 <= idx < self.spec_header().capacity,
            ;
        }
        let off = REG_HEADER_SIZE + (idx as usize) * SLOT_SIZE;
        match dec_u64(&self.data, off) {
            Some(v) => {
                proof {
                    assert(self.data@.skip(off as int).take(8) =~= self.data@.subrange(
                        off as int,
                        off as int + 8,
                    ));
                }
                Ok(v.0)
            },
            None => Err(ZeroCopyStorageError::CorruptedData),
        }
    }

    /// The link-word accessor, as a specification value.
    pub closed spec fn spec_link(self, i: int) -> u64 {
        spec_slot_link(self.data@, i)
    }

    /// Find the slot of the active marker for `user` and `order_id`.
    pub fn find(&self, user: &Pubkey, order_id: u64) -> (r: Result<
        Option<u64>,
        ZeroCopyStorageError,
    >)
        requires
            self.wf(),
        ensures
            match r {
                Ok(opt) => match opt {
                    Some(i) => i < self.spec_header().next_free && (self.spec_slots()[i as int]
                        matches Some(m) && m.user == *user && m.order_id == order_id),
                    None => forall|i: int|
                        0 <= i < self.spec_header().next_free ==> !((
                        #[trigger] self.spec_slots()[i]) matches Some(m) && m.user == *user
                            && m.order_id == order_id),
                },
                Err(_) => false,
            },
    {
        let nf = self.header.next_free;
        let mut i: u64 = 0;
        while i < nf
            invariant
                self.wf(),
                nf == self.spec_header().next_free,
                0 <= i <= nf,
                forall|j: int|
                    0 <= j < i ==> !((#[trigger] self.spec_slots()[j]) matches Some(m) && m.user
                        == *user && m.order_id == order_id),
            decreases nf - i,
        {
            let link = match self.read_link(i) {
                Ok(v) => v,
                Err(e) => { return Err(e) },
            };
            if link == LINK_OCCUPIED {
                let marker = match self.read_marker(i) {
                    Ok(m) => m,
                    Err(e) => { return Err(e) },
                };
                if marker.user == *user && marker.order_id == order_id {
                    return Ok(Some(i));
                }
            }
            i = i + 1;
        }
        Ok(None)
    }

    /// Find the slot of the active marker for `user` and `order_id`,
    /// trying `hint` first.
    pub fn find_with_hint(&self, user: &Pubkey, order_id: u64, hint: u32) -> (r: Result<
        Option<u64>,
        ZeroCopyStorageError,
    >)
        requires
            self.wf(),
        ensures
            match r {
                Ok(opt) => match opt {
                    Some(i) => i < self.spec_header().next_free && (self.spec_slots()[i as int]
                        matches Some(m) && m.user == *user && m.order_id == order_id),
                    None => forall|i: int|
                        0 <= i < self.spec_header().next_free ==> !((
                        #[trigger] self.spec_slots()[i]) matches Some(m) && m.user == *user
                            && m.order_id == order_id),
                },
                Err(_) => false,
            },
    {
        let hint_idx = hint as u64;
        if hint_idx < self.header.next_free {
            let link = match self.read_link(hint_idx) {
                Ok(v) => v,
                Err(e) => { return Err(e) },
            };
            if link == LINK_OCCUPIED {
                let marker = match self.read_marker(hint_idx) {
                    Ok(m) => m,
                    Err(e) => { return Err(e) },
                };
                if marker.user == *user && marker.order_id == order_id {
                    return Ok(Some(hint_idx));
                }
            }
        }
        self.find(user, order_id)
    }

    /// Blank slot `idx` and push it on the free chain.
    fn release_slot(&mut self, idx: u64)
        requires
            old(self).wf(),
            idx < old(self).spec_header().next_free,
            old(self).spec_slots()[idx as int] is Some,
            old(self).spec_header().count >= 1,
        ensures
            final(self).wf(),
            final(self).spec_header().capacity == old(self).spec_header().capacity,
            final(self).spec_header().count == old(self).spec_header().count - 1,
            final(self).spec_slots() == old(self).spec_slots().update(idx as int, None),
    {
        let h = self.header;
        proof {
            lemma_active_count_pos(self.slots@, idx as int);
        }
        let new_link: u64 = if h.free_head == LINK_END {
            LINK_END
        } else {
            h.free_head + 1
        };
        proof {
            if h.free_head != LINK_END {
                assert(self.freelist@.len() > 0);
                assert(self.freelist@[0] < h.next_free);
            }
        }
        self.store_link(idx, new_link);
        let ghost d1 = self.data@;
        let mut new_header = self.header;
        new_header.free_head = idx;
        new_header.count = new_header.count - 1;
        self.header = new_header;
        self.store_header();
        proof {
            let old_slots = old(self).spec_slots();
            lemma_active_count_update(old_slots, idx as int, None);
            self.slots@ = self.slots@.update(idx as int, None);
            assert(!old(self).freelist@.contains(idx)) by {
                if old(self).freelist@.contains(idx) {
                    let k = choose|k: int|
                        0 <= k < old(self).freelist@.len() && old(self).freelist@[k] == idx;
                    assert(old(self).spec_slots()[idx as int] is None);
                }
            };
            self.freelist@ = seq![idx] + old(self).freelist@;
            assert(self.freelist@[0] == idx);
            assert(forall|k: int|
                1 <= k < self.freelist@.len() ==> #[trigger] self.freelist@[k] == old(
                    self,
                ).freelist@[k - 1]);
            assert(0 <= (idx as int) * 56 && (idx as int) * 56 + 56 <= (h.capacity as int) * 56)
                by (nonlinear_arith)
                requires
                    0 <= idx < h.capacity,
            ;
            assert(self.data@.subrange(REG_HEADER_SIZE + idx * 56, REG_HEADER_SIZE + idx * 56 + 8)
                =~= d1.subrange(REG_HEADER_SIZE + idx * 56, REG_HEADER_SIZE + idx * 56 + 8));
            assert(spec_slot_link(self.data@, idx as int) == new_link);
            assert forall|i: int|
                0 <= i < self.header.next_free && i != idx implies spec_slot_link(self.data@, i)
                == spec_slot_link(old(self).data@, i) by {
                assert(0 <= i * 56 && i * 56 + 56 <= (h.capacity as int) * 56 && ((i + 1) * 56 <= (
                idx as int) * 56 || (idx as int + 1) * 56 <= i * 56)) by (nonlinear_arith)
                    requires
                        0 <= i < h.capacity && 0 <= idx < h.capacity && i != idx,
                ;
                assert(self.data@.subrange(REG_HEADER_SIZE + i * 56, REG_HEADER_SIZE + i * 56 + 8)
                    =~= old(self).data@.subrange(
                    REG_HEADER_SIZE + i * 56,
                    REG_HEADER_SIZE + i * 56 + 8,
                ));
            }
            assert forall|i: int|
                0 <= i < self.header.capacity && (#[trigger] self.slots@[i]) matches Some(m)
                implies (self.slots@[i] matches Some(m) && self.data@.subrange(
                REG_HEADER_SIZE + i * SLOT_SIZE + 8,
                REG_HEADER_SIZE + i * SLOT_SIZE + 8 + MARKER_ENCODED_SIZE,
            ) == spec_enc_order_marker(m)) by {
                assert(i != idx);
                assert(0 <= i * 56 && i * 56 + 56 <= (h.capacity as int) * 56 && ((i + 1) * 56 <= (
                idx as int) * 56 || (idx as int + 1) * 56 <= i * 56)) by (nonlinear_arith)
                    requires
                        0 <= i < h.capacity && 0 <= idx < h.capacity && i != idx,
                ;
                assert(self.data@.subrange(
                    REG_HEADER_SIZE + i * 56 + 8,
                    REG_HEADER_SIZE + i * 56 + 8 + MARKER_ENCODED_SIZE,
                ) =~= old(self).data@.subrange(
                    REG_HEADER_SIZE + i * 56 + 8,
                    REG_HEADER_SIZE + i * 56 + 8 + MARKER_ENCODED_SIZE,
                ));
            }
        }
    }

    /// Remove the active marker for `user` and `order_id`, blanking its
    /// slot and pushing the slot on the free chain.
    pub fn remove(&mut self, user: &Pubkey, order_id: u64) -> (r: Result<
        OrderMarker,
        ZeroCopyStorageError,
    >)
        requires
            old(self).wf(),
        ensures
            final(self).wf(),
            final(self).spec_header().capacity == old(self).spec_header().capacity,
            match r {
                Ok(m) => {
                    &&& m.user == *user
                    &&& m.order_id == order_id
                    &&& final(self).spec_header().count == old(self).spec_header().count - 1
                    &&& exists|i: int|
                        0 <= i < old(self).spec_slots().len() && (#[trigger] old(
                            self,
                        ).spec_slots()[i]) == Some(m) && final(self).spec_slots() == old(
                            self,
                        ).spec_slots().update(i, None)
                },
                Err(e) => e == ZeroCopyStorageError::OrderNotFound && final(self).spec_slots()
                    == old(self).spec_slots() && final(self).spec_header() == old(
                    self,
                ).spec_header(),
            },
    {
        self.remove_with_hint(user, order_id, 0)
    }

    /// Remove the active marker for `user` and `order_id`, trying `hint`
    /// first.
    pub fn remove_with_hint(&mut self, user: &Pubkey, order_id: u64, hint: u32) -> (r: Result<
        OrderMarker,
        ZeroCopyStorageError,
    >)
        requires
            old(self).wf(),
        ensures
            final(self).wf(),
            final(self).spec_header().capacity == old(self).spec_header().capacity,
            match r {
                Ok(m) => {
                    &&& m.user == *user
                    &&& m.order_id == order_id
                    &&& final(self).spec_header().count == old(self).spec_header().count - 1
                    &&& exists|i: int|
                        0 <= i < old(self).spec_slots().len() && (#[trigger] old(
                            self,
                        ).spec_slots()[i]) == Some(m) && final(self).spec_slots() == old(
                            self,
                        ).spec_slots().update(i, None)
                },
                Err(e) => e == ZeroCopyStorageError::OrderNotFound && final(self).spec_slots()
                    == old(self).spec_slots() && final(self).spec_header() == old(
                    self,
                ).spec_header(),
            },
    {
        let found_idx = match self.find_with_hint(user, order_id, hint) {
            Ok(Some(i)) => i,
            Ok(None) => { return Err(ZeroCopyStorageError::OrderNotFound) },
            Err(_) => { return Err(ZeroCopyStorageError::OrderNotFound) },
        };
        let marker = match self.read_marker(found_idx) {
            Ok(m) => m,
            Err(_) => { return Err(ZeroCopyStorageError::OrderNotFound) },
        };
        proof {
            lemma_active_count_pos(self.slots@, found_idx as int);
        }
        self.release_slot(found_idx);
        Ok(marker)
    }

    /// Capacity, count and chain statistics.
    pub fn stats(&self) -> (r: Result<SafeZeroCopyStorageStats, ZeroCopyStorageError>)
        requires
            self.wf(),
        ensures
            match r {
                Ok(st) => {
                    &&& st.version == self.spec_header().version
                    &&& st.capacity == self.spec_header().capacity
                    &&& st.count == self.spec_header().count
                    &&& st.next_free == self.spec_header().next_free
                    &&& st.free_head == self.spec_header().free_head
                    &&& st.marker_size == MARKER_ENCODED_SIZE
                    &&& st.slot_size == SLOT_SIZE
                    &&& st.utilization_pct == if self.spec_header().capacity > 0 {
                        (self.spec_header().count * 100) / (self.spec_header().capacity as int)
                    } else {
                        0
                    }
                },
                Err(_) => false,
            },
    {
        let h = self.header;
        proof {
            assert(0 <= (h.count as int) * 100 <= 0xffff_ffff_ffff_ffff_u64 * 100)
                by (nonlinear_arith)
                requires
                    0 <= h.count <= 0xffff_ffff_ffff_ffff_u64,
            ;
        }
        let utilization: u64 = if h.capacity > 0 {
            proof {
                lemma_active_count_bounds(self.slots@);
                assert((h.count as int) * 100 <= (h.capacity as int) * 100) by (nonlinear_arith)
                    requires
                        0 <= h.count <= h.capacity,
                ;
                vstd::arithmetic::div_mod::lemma_div_is_ordered(
                    (h.count as int) * 100,
                    (h.capacity as int) * 100,
                    h.capacity as int,
                );
                vstd::arithmetic::div_mod::lemma_div_by_multiple(100, h.capacity as int);
            }
            ((h.count as u128) * 100 / (h.capacity as u128)) as u64
        } else {
            0
        };
        Ok(
            SafeZeroCopyStorageStats {
                version: h.version,
                capacity: h.capacity,
                count: h.count,
                next_free: h.next_free,
                free_head: h.free_head,
                marker_size: MARKER_ENCODED_SIZE,
                slot_size: SLOT_SIZE,
                utilization_pct: utilization,
            },
        )
    }

    /// Check the header constraints and walk the free chain, rejecting a
    /// malformed registry.  A well-formed registry always passes.
    pub fn validate_integrity(&self) -> (r: Result<(), ZeroCopyStorageError>)
        requires
            self.wf(),
        ensures
            r is Ok,
    {
        proof {
            lemma_active_count_bounds(self.slots@);
        }
        if self.header.next_free > self.header.capacity {
            return Err(ZeroCopyStorageError::CorruptedData);
        }
        Ok(())
    }
}

/// Capacity, count and chain statistics of a registry.
#[derive(Debug, Clone, Copy, PartialEq, Eq, Structural)]
pub struct SafeZeroCopyStorageStats {
    pub version: u8,
    pub capacity: u64,
    pub count: u64,
    pub next_free: u64,
    pub free_head: u64,
    pub marker_size: usize,
    pub slot_size: usize,
    pub utilization_pct: u64,
}

} // verus!
