//! Market-wide append-only event log over a fixed byte range.
//!
//! The production form of the order log: a versioned header followed by
//! `capacity` fixed-stride slots in one contiguous byte buffer, written
//! and read field by field in little-endian form.  Appends are constant
//! time; reads decode one entry lazily.  The header records the canonical
//! entry stride, recomputed and compared at load so that record-format
//! drift is caught before any entry is touched.

use vstd::prelude::*;

use crate::codec::dec_u32;
use crate::codec::dec_u64;
use crate::codec::dec_u8;
use crate::codec::enc_u32;
use crate::codec::enc_u64;
use crate::codec::enc_u8;
use crate::codec::lemma_prim_round_trip;
use crate::codec::lemma_prim_sound;
use crate::codec::spec_dec_u32;
use crate::codec::spec_dec_u64;
use crate::codec::spec_dec_u8;
use crate::codec::spec_enc_u32;
use crate::codec::spec_enc_u64;
use crate::codec::spec_enc_u8;
use crate::error::ProgramError;
use crate::keys::Pubkey;
use crate::market_order_log::spec_count_class;
use crate::market_order_log::FillLogDetails;
use crate::market_order_log::MarketOrderLogStats;
use crate::market_order_log::OrderLogEntry;
use crate::market_order_log::OrderUpdateType;
use crate::log_codec::dec_log_entry;
use crate::log_codec::lemma_log_entry_sound;
use crate::log_codec::enc_log_entry;
use crate::log_codec::lemma_log_entry_round_trip;
use crate::log_codec::spec_dec_log_entry;
use crate::log_codec::spec_enc_log_entry;
use crate::order::OrderDetails;
use crate::order_codec::dec_bytes_n;
use crate::order_codec::enc_bytes_n;
use crate::order_codec::lemma_app_assoc;
use crate::order_codec::lemma_arr_round_trip;
use crate::order_codec::lemma_arr_sound;
use crate::order_codec::spec_dec_arr;

verus! {

/// Log layout version.
pub const ORDER_LOG_VERSION: u8 = 1;

/// Encoded size of the log header.
pub const LOG_HEADER_SIZE: usize = 80;

/// Known padding reserved in an `OrderDetails` record, absorbing
/// tagged-union size variance across variants.
pub const ORDER_DETAILS_PADDING: usize = 120;

/// Failures of zero-copy order-log operations.
#[derive(Debug, Clone, Copy, PartialEq, Eq, Structural)]
pub enum ZeroCopyOrderLogError {
    LogFull,
    AccountTooSmall,
    CorruptedData,
    InvalidAlignment,
    UnsupportedVersion,
    InvalidCapacity,
    InvalidEntrySize,
}

impl ZeroCopyOrderLogError {
    /// The custom program-error code of this failure.
    pub open spec fn spec_code(self) -> u32 {
        match self {
            ZeroCopyOrderLogError::LogFull => 300,
            ZeroCopyOrderLogError::AccountTooSmall => 301,
            ZeroCopyOrderLogError::CorruptedData => 302,
            ZeroCopyOrderLogError::InvalidAlignment => 303,
            ZeroCopyOrderLogError::UnsupportedVersion => 304,
            ZeroCopyOrderLogError::InvalidCapacity => 305,
            ZeroCopyOrderLogError::InvalidEntrySize => 306,
        }
    }

    /// Map this failure to its custom program error.
    pub fn to_program_error(&self) -> (r: ProgramError)
        ensures
            r == ProgramError::Custom(self.spec_code()),
    {
        match self {
            ZeroCopyOrderLogError::LogFull => ProgramError::Custom(300),
            ZeroCopyOrderLogError::AccountTooSmall => ProgramError::Custom(301),
            ZeroCopyOrderLogError::CorruptedData => ProgramError::Custom(302),
            ZeroCopyOrderLogError::InvalidAlignment => ProgramError::Custom(303),
            ZeroCopyOrderLogError::UnsupportedVersion => ProgramError::Custom(304),
            ZeroCopyOrderLogError::InvalidCapacity => ProgramError::Custom(305),
            ZeroCopyOrderLogError::InvalidEntrySize => ProgramError::Custom(306),
        }
    }
}

/// Fixed-size header at the start of the byte range.
#[derive(Debug, Clone, Copy, PartialEq)]
pub struct MarketOrderLogHeader {
    /// Layout version, for migration compatibility.
    pub version: u8,
    pub _pad1: [u8; 7],
    /// The market this log belongs to.
    pub market_id: u64,
    /// The page number, for pagination.
    pub page: u32,
    pub _pad2: [u8; 4],
    /// Maximum number of entries this log holds.
    pub capacity: u64,
    /// Current number of entries.
    pub entry_count: u64,
    /// The canonical entry stride, for validation.
    pub entry_size: u64,
    pub _pad3: [u8; 32],
}

/// Basic information about a log, read from its header.
#[derive(Debug, Clone, Copy, PartialEq, Eq, Structural)]
pub struct ZeroCopyOrderLogInfo {
    pub market_id: u64,
    pub page: u32,
    pub capacity: u64,
    pub entry_count: u64,
    pub entry_size: usize,
    pub version: u8,
}

/// Overwrite `data[off .. off + src.len()]` with `src`.
pub(crate) fn write_bytes_at(data: &mut Vec<u8>, off: usize, src: &Vec<u8>)
    requires
        off + src@.len() <= old(data)@.len(),
    ensures
        final(data)@.len() == old(data)@.len(),
        final(data)@.subrange(off as int, off + src@.len()) == src@,
        forall|i: int|
            0 <= i < old(data)@.len() && !(off <= i < off + src@.len()) ==> final(data)@[i] == old(
                data,
            )@[i],
{
    let n = src.len();
    let total = data.len();
    let mut i: usize = 0;
    while i < n
        invariant
            off + n <= total,
            total == data@.len(),
            n == src@.len(),
            data@.len() == old(data)@.len(),
            0 <= i <= n,
            forall|j: int| 0 <= j < i ==> data@[off + j] == src@[j],
            forall|j: int|
                0 <= j < data@.len() && !(off <= j < off + i) ==> data@[j] == old(data)@[j],
        decreases n - i,
    {
        *vstd::std_specs::vec::vec_index_mut(data, off + i) = src[i];
        i = i + 1;
    }
    proof {
        assert(final(data)@.subrange(off as int, off + src@.len()) =~= src@);
    }
}

/// The canonical bytes of a log header.
pub open spec fn spec_enc_log_header(x: MarketOrderLogHeader) -> Seq<u8> {
    spec_enc_u8(x.version) + x._pad1@ + spec_enc_u64(x.market_id) + spec_enc_u32(x.page) + x._pad2@ + spec_enc_u64(x.capacity) + spec_enc_u64(x.entry_count) + spec_enc_u64(x.entry_size) + x._pad3@
}

/// Decode a log header.
pub open spec fn spec_dec_log_header(s: Seq<u8>) -> Option<(MarketOrderLogHeader, Seq<u8>)> {
    match spec_dec_u8(s) {
            Some(a0) => match spec_dec_arr::<7>(a0.1) {
            Some(a1) => match spec_dec_u64(a1.1) {
            Some(a2) => match spec_dec_u32(a2.1) {
            Some(a3) => match spec_dec_arr::<4>(a3.1) {
            Some(a4) => match spec_dec_u64(a4.1) {
            Some(a5) => match spec_dec_u64(a5.1) {
            Some(a6) => match spec_dec_u64(a6.1) {
            Some(a7) => match spec_dec_arr::<32>(a7.1) {
            Some(a8) => Some(((MarketOrderLogHeader { version: a0.0, _pad1: a1.0, market_id: a2.0, page: a3.0, _pad2: a4.0, capacity: a5.0, entry_count: a6.0, entry_size: a7.0, _pad3: a8.0 }), a8.1)),
            None => None,
        },
            None => None,
        },
            None => None,
        },
            None => None,
        },
            None => None,
        },
            None => None,
        },
            None => None,
        },
            None => None,
        },
            None => None,
        }
}

/// Decoding inverts encoding for a log header.
pub proof fn lemma_log_header_round_trip(x: MarketOrderLogHeader, rest: Seq<u8>)
    ensures
        spec_dec_log_header(spec_enc_log_header(x) + rest) == Some((x, rest)),
{
    lemma_prim_round_trip();
    let t8 = x._pad3@ + rest;
    let t7 = spec_enc_u64(x.entry_size) + t8;
    let t6 = spec_enc_u64(x.entry_count) + t7;
    let t5 = spec_enc_u64(x.capacity) + t6;
    let t4 = x._pad2@ + t5;
    let t3 = spec_enc_u32(x.page) + t4;
    let t2 = spec_enc_u64(x.market_id) + t3;
    let t1 = x._pad1@ + t2;
    let t0 = spec_enc_u8(x.version) + t1;
    assert(spec_enc_log_header(x) + rest =~= t0);
    lemma_arr_round_trip::<7>(x._pad1, t2);
    lemma_arr_round_trip::<4>(x._pad2, t5);
    lemma_arr_round_trip::<32>(x._pad3, rest);
}

/// Append a log header.
pub fn enc_log_header(out: &mut Vec<u8>, x: &MarketOrderLogHeader)
    ensures
        final(out)@ == old(out)@ + spec_enc_log_header(*x),
{
    enc_u8(out, x.version);
    enc_bytes_n(out, &x._pad1);
    enc_u64(out, x.market_id);
    enc_u32(out, x.page);
    enc_bytes_n(out, &x._pad2);
    enc_u64(out, x.capacity);
    enc_u64(out, x.entry_count);
    enc_u64(out, x.entry_size);
    enc_bytes_n(out, &x._pad3);
    proof {
        assert(final(out)@ =~= old(out)@ + spec_enc_log_header(*x));
    }
}

/// Read a log header at `pos`.
pub fn dec_log_header(buf: &Vec<u8>, pos: usize) -> (r: Option<(MarketOrderLogHeader, usize)>)
    requires
        pos <= buf@.len(),
    ensures
        match r {
            Some(v) => pos <= v.1 <= buf@.len() && spec_dec_log_header(buf@.skip(pos as int)) == Some(
                (v.0, buf@.skip(v.1 as int)),
            ),
            None => spec_dec_log_header(buf@.skip(pos as int)) is None,
        },
{
    let a0 = match dec_u8(buf, pos) {
        Some(v) => v,
        None => { return None },
    };
    let a1 = match dec_bytes_n::<7>(buf, a0.1) {
        Some(v) => v,
        None => { return None },
    };
    let a2 = match dec_u64(buf, a1.1) {
        Some(v) => v,
        None => { return None },
    };
    let a3 = match dec_u32(buf, a2.1) {
        Some(v) => v,
        None => { return None },
    };
    let a4 = match dec_bytes_n::<4>(buf, a3.1) {
        Some(v) => v,
        None => { return None },
    };
    let a5 = match dec_u64(buf, a4.1) {
        Some(v) => v,
        None => { return None },
    };
    let a6 = match dec_u64(buf, a5.1) {
        Some(v) => v,
        None => { return None },
    };
    let a7 = match dec_u64(buf, a6.1) {
        Some(v) => v,
        None => { return None },
    };
    let a8 = match dec_bytes_n::<32>(buf, a7.1) {
        Some(v) => v,
        None => { return None },
    };
    Some((MarketOrderLogHeader { version: a0.0, _pad1: a1.0, market_id: a2.0, page: a3.0, _pad2: a4.0, capacity: a5.0, entry_count: a6.0, entry_size: a7.0, _pad3: a8.0 }, a8.1))
}

/// A successful decode consumed exactly the canonical bytes of its
/// result, for a log header.
pub proof fn lemma_log_header_sound(s: Seq<u8>)
    requires
        spec_dec_log_header(s) is Some,
    ensures
        ({
            let v = spec_dec_log_header(s)->Some_0;
            s == spec_enc_log_header(v.0) + v.1
        }),
{
    lemma_prim_sound();
    let a0 = spec_dec_u8(s)->Some_0;
    let a1 = spec_dec_arr::<7>(a0.1)->Some_0;
    lemma_arr_sound::<7>(a0.1);
    let a2 = spec_dec_u64(a1.1)->Some_0;
    let a3 = spec_dec_u32(a2.1)->Some_0;
    let a4 = spec_dec_arr::<4>(a3.1)->Some_0;
    lemma_arr_sound::<4>(a3.1);
    let a5 = spec_dec_u64(a4.1)->Some_0;
    let a6 = spec_dec_u64(a5.1)->Some_0;
    let a7 = spec_dec_u64(a6.1)->Some_0;
    let a8 = spec_dec_arr::<32>(a7.1)->Some_0;
    lemma_arr_sound::<32>(a7.1);
    assert(s =~= spec_enc_u8(a0.0) + a0.1);
    lemma_app_assoc(spec_enc_u8(a0.0), a1.0@, a1.1);
    assert(s =~= (spec_enc_u8(a0.0) + a1.0@) + a1.1);
    lemma_app_assoc((spec_enc_u8(a0.0) + a1.0@), spec_enc_u64(a2.0), a2.1);
    assert(s =~= ((spec_enc_u8(a0.0) + a1.0@) + spec_enc_u64(a2.0)) + a2.1);
    lemma_app_assoc(((spec_enc_u8(a0.0) + a1.0@) + spec_enc_u64(a2.0)), spec_enc_u32(a3.0), a3.1);
    assert(s =~= (((spec_enc_u8(a0.0) + a1.0@) + spec_enc_u64(a2.0)) + spec_enc_u32(a3.0)) + a3.1);
    lemma_app_assoc((((spec_enc_u8(a0.0) + a1.0@) + spec_enc_u64(a2.0)) + spec_enc_u32(a3.0)), a4.0@, a4.1);
    assert(s =~= ((((spec_enc_u8(a0.0) + a1.0@) + spec_enc_u64(a2.0)) + spec_enc_u32(a3.0)) + a4.0@) + a4.1);
    lemma_app_assoc(((((spec_enc_u8(a0.0) + a1.0@) + spec_enc_u64(a2.0)) + spec_enc_u32(a3.0)) + a4.0@), spec_enc_u64(a5.0), a5.1);
    assert(s =~= (((((spec_enc_u8(a0.0) + a1.0@) + spec_enc_u64(a2.0)) + spec_enc_u32(a3.0)) + a4.0@) + spec_enc_u64(a5.0)) + a5.1);
    lemma_app_assoc((((((spec_enc_u8(a0.0) + a1.0@) + spec_enc_u64(a2.0)) + spec_enc_u32(a3.0)) + a4.0@) + spec_enc_u64(a5.0)), spec_enc_u64(a6.0), a6.1);
    assert(s =~= ((((((spec_enc_u8(a0.0) + a1.0@) + spec_enc_u64(a2.0)) + spec_enc_u32(a3.0)) + a4.0@) + spec_enc_u64(a5.0)) + spec_enc_u64(a6.0)) + a6.1);
    lemma_app_assoc(((((((spec_enc_u8(a0.0) + a1.0@) + spec_enc_u64(a2.0)) + spec_enc_u32(a3.0)) + a4.0@) + spec_enc_u64(a5.0)) + spec_enc_u64(a6.0)), spec_enc_u64(a7.0), a7.1);
    assert(s =~= (((((((spec_enc_u8(a0.0) + a1.0@) + spec_enc_u64(a2.0)) + spec_enc_u32(a3.0)) + a4.0@) + spec_enc_u64(a5.0)) + spec_enc_u64(a6.0)) + spec_enc_u64(a7.0)) + a7.1);
    lemma_app_assoc((((((((spec_enc_u8(a0.0) + a1.0@) + spec_enc_u64(a2.0)) + spec_enc_u32(a3.0)) + a4.0@) + spec_enc_u64(a5.0)) + spec_enc_u64(a6.0)) + spec_enc_u64(a7.0)), a8.0@, a8.1);
    assert(s =~= ((((((((spec_enc_u8(a0.0) + a1.0@) + spec_enc_u64(a2.0)) + spec_enc_u32(a3.0)) + a4.0@) + spec_enc_u64(a5.0)) + spec_enc_u64(a6.0)) + spec_enc_u64(a7.0)) + a8.0@) + a8.1);
    assert(spec_enc_log_header(spec_dec_log_header(s)->Some_0.0) == ((((((((spec_enc_u8(a0.0) + a1.0@) + spec_enc_u64(a2.0)) + spec_enc_u32(a3.0)) + a4.0@) + spec_enc_u64(a5.0)) + spec_enc_u64(a6.0)) + spec_enc_u64(a7.0)) + a8.0@));
}

/// The canonical entry stride: the encoded size of a representative
/// entry, recomputed at load and compared to the stored value.
pub fn get_entry_serialized_size() -> (r: usize)
    ensures
        r == LOG_ENTRY_STRIDE,
{
    let representative_order_details = OrderDetails {
        order_id: 1,
        side: crate::order::OrderSide::Bid,
        qty: 1_000_000,
        filled_qty: 0,
        price: crate::order::OrderPrice::Limit(100_000),
        origin: crate::order::OrderOriginator::User(),
        entry_cond: crate::order::TriggerCondition::Off(),
        entry_cond_size: crate::order::TriggerEntrySize::PositionSizePercent(0),
        cancel_cond: crate::order::TriggerCondition::Off(),
        cancel_cond_2: crate::order::TriggerCondition::Off(),
        cancel_cond_3: crate::order::TriggerCondition::Off(),
        tombstone: crate::order::OrderTombstone::Open(),
        event_history: Default::default(),
        builder_tag: Default::default(),
        _pad1: [0u8; 64],
        _pad2: [0u8; 32],
        _pad3: [0u8; 24],
    };
    let dummy_entry = OrderLogEntry {
        user: Pubkey::zeroed(),
        order_id: 0,
        update_type: OrderUpdateType::OrderEntry,
        order_details: representative_order_details,
        fill_details: FillLogDetails::empty(),
        slot: 0,
    };
    let mut out: Vec<u8> = Vec::new();
    enc_log_entry(&mut out, &dummy_entry);
    proof {
        crate::codec::lemma_prim_round_trip();
        broadcast use vstd::array::array_len_matches_n;

        assert(out@.len() == LOG_ENTRY_STRIDE);
    }
    out.len()
}

/// The canonical entry stride in bytes.
pub const LOG_ENTRY_STRIDE: usize = 453;

/// Zero-copy view over a log byte range: the buffer, a mirror of its
/// header, and the ghost sequence of decoded entries.
pub struct ZeroCopyMarketOrderLog {
    data: Vec<u8>,
    header: MarketOrderLogHeader,
    entries: Ghost<Seq<OrderLogEntry>>,
}

impl ZeroCopyMarketOrderLog {
    /// The entries this log holds.
    pub closed spec fn spec_entries(self) -> Seq<OrderLogEntry> {
        self.entries@
    }

    /// The mirrored header.
    pub closed spec fn spec_header(self) -> MarketOrderLogHeader {
        self.header
    }

    /// The byte length of the underlying buffer.
    pub closed spec fn spec_data_len(self) -> int {
        self.data@.len() as int
    }

    /// The underlying byte range.
    pub closed spec fn spec_bytes(self) -> Seq<u8> {
        self.data@
    }

    /// Well-formedness: the header mirror matches the header bytes, the
    /// buffer holds the full capacity at the canonical stride, and each
    /// written entry's canonical bytes sit at its slot.
    pub closed spec fn wf(self) -> bool {
        let h = self.header;
        &&& h.version == ORDER_LOG_VERSION
        &&& h.entry_size == LOG_ENTRY_STRIDE
        &&& h.capacity >= 1
        &&& h.entry_count <= h.capacity
        &&& LOG_HEADER_SIZE + h.capacity * h.entry_size <= self.data@.len()
        &&& self.data@.len() <= usize::MAX
        &&& self.data@.subrange(0, LOG_HEADER_SIZE as int) == spec_enc_log_header(h)
        &&& self.entries@.len() == h.entry_count
        &&& forall|i: int|
            0 <= i < self.entries@.len() ==> {
                let e = #[trigger] self.entries@[i];
                let off = LOG_HEADER_SIZE + i * (h.entry_size as int);
                &&& spec_enc_log_entry(e).len() <= h.entry_size
                &&& self.data@.subrange(off, off + spec_enc_log_entry(e).len() as int)
                    == spec_enc_log_entry(e)
            }
    }

    /// Initialize a log byte range: zero it and write a fresh header.
    pub fn init_in_buffer(data: &mut Vec<u8>, market_id: u64, page: u32, capacity: u64) -> (r:
        Result<(), ZeroCopyOrderLogError>)
        ensures
            match r {
                Ok(_) => {
                    &&& capacity >= 1
                    &&& LOG_HEADER_SIZE + capacity * LOG_ENTRY_STRIDE <= old(data)@.len()
                    &&& final(data)@.len() == old(data)@.len()
                    &&& final(data)@.subrange(0, LOG_HEADER_SIZE as int) == spec_enc_log_header(
                        spec_fresh_log_header(market_id, page, capacity),
                    )
                },
                Err(e) => if capacity == 0 {
                    e == ZeroCopyOrderLogError::InvalidCapacity
                } else {
                    e == ZeroCopyOrderLogError::AccountTooSmall && LOG_HEADER_SIZE + capacity
                        * LOG_ENTRY_STRIDE > old(data)@.len()
                },
            },
    {
        if capacity == 0 {
            return Err(ZeroCopyOrderLogError::InvalidCapacity);
        }
        let entry_size = get_entry_serialized_size();
        let required128: u128 = (LOG_HEADER_SIZE as u128) + (capacity as u128) * (entry_size
            as u128);
        proof {
            assert((capacity as int) * (entry_size as int) == (capacity as int) * 453
                && (capacity as int) * 453 <= 0xffff_ffff_ffff_ffff_u64 * 453) by (nonlinear_arith)
                requires
                    entry_size == 453 && 0 <= capacity <= 0xffff_ffff_ffff_ffff_u64,
            ;
        }
        let n = data.len();
        if required128 > n as u128 {
            return Err(ZeroCopyOrderLogError::AccountTooSmall);
        }
        let mut i: usize = 0;
        while i < n
            invariant
                n == data@.len(),
                0 <= i <= n,
                data@.len() == old(data)@.len(),
            decreases n - i,
        {
            *vstd::std_specs::vec::vec_index_mut(data, i) = 0;
            i = i + 1;
        }
        let header = MarketOrderLogHeader {
            version: ORDER_LOG_VERSION,
            _pad1: [0u8; 7],
            market_id,
            page,
            _pad2: [0u8; 4],
            capacity,
            entry_count: 0,
            entry_size: entry_size as u64,
            _pad3: [0u8; 32],
        };
        let mut hbytes: Vec<u8> = Vec::new();
        enc_log_header(&mut hbytes, &header);
        proof {
            lemma_log_header_size(header);
        }
        write_bytes_at(data, 0, &hbytes);
        proof {
            assert(final(data)@.subrange(0, LOG_HEADER_SIZE as int) =~= hbytes@);
            assert(header == spec_fresh_log_header(market_id, page, capacity)) by {
                broadcast use vstd::array::axiom_array_ext_equal;

                assert(header._pad1 =~= spec_fresh_log_header(market_id, page, capacity)._pad1);
                assert(header._pad2 =~= spec_fresh_log_header(market_id, page, capacity)._pad2);
                assert(header._pad3 =~= spec_fresh_log_header(market_id, page, capacity)._pad3);
            };
        }
        Ok(())
    }

    /// Load a log from a byte range, validating the header and every
    /// written entry.  Success ties the returned view to the bytes: the
    /// header is the one the bytes decode to and every entry decodes from
    /// its slot.  Failure names the first failing check, and never
    /// happens on the bytes of a well-formed log.
    #[verifier::rlimit(100)]
    #[verifier::spinoff_prover]
    pub fn load(data: Vec<u8>) -> (r: Result<ZeroCopyMarketOrderLog, ZeroCopyOrderLogError>)
        ensures
            match r {
                Ok(log) => {
                    &&& log.wf()
                    &&& log.spec_bytes() == data@
                    &&& (spec_dec_log_header(data@) matches Some(h) && log.spec_header() == h.0)
                    &&& log.spec_entries().len() == log.spec_header().entry_count
                    &&& forall|i: int|
                        0 <= i < log.spec_entries().len() ==> (spec_dec_log_entry(
                            data@.skip(LOG_HEADER_SIZE + i * (LOG_ENTRY_STRIDE as int)),
                        ) matches Some(v) && v.0 == #[trigger] log.spec_entries()[i])
                },
                Err(e) => {
                    &&& !(exists|log2: ZeroCopyMarketOrderLog|
                        (#[trigger] log2.wf()) && log2.spec_bytes() == data@)
                    &&& match spec_dec_log_header(data@) {
                        None => e == ZeroCopyOrderLogError::AccountTooSmall,
                        Some(h) => {
                            let hd = h.0;
                            if hd.version != ORDER_LOG_VERSION {
                                e == ZeroCopyOrderLogError::UnsupportedVersion
                            } else if hd.entry_size != LOG_ENTRY_STRIDE {
                                e == ZeroCopyOrderLogError::InvalidEntrySize
                            } else if hd.capacity == 0 {
                                e == ZeroCopyOrderLogError::InvalidCapacity
                            } else if LOG_HEADER_SIZE + hd.capacity * LOG_ENTRY_STRIDE
                                > data@.len() {
                                e == ZeroCopyOrderLogError::AccountTooSmall
                            } else if hd.entry_count > hd.capacity {
                                e == ZeroCopyOrderLogError::CorruptedData
                            } else {
                                e == ZeroCopyOrderLogError::CorruptedData || e
                                    == ZeroCopyOrderLogError::InvalidEntrySize
                            }
                        },
                    }
                },
            },
    {
        proof {
            assert(data@.skip(0) =~= data@);
        }
        let hopt = dec_log_header(&data, 0);
        if hopt.is_none() {
            proof {
                assert forall|log2: ZeroCopyMarketOrderLog|
                    (#[trigger] log2.wf()) && log2.spec_bytes() == data@ implies false by {
                    let h2 = log2.spec_header();
                    assert((h2.capacity as int) * (h2.entry_size as int) >= 0) by (nonlinear_arith)
                        requires
                            h2.capacity >= 0 && h2.entry_size >= 0,
                    ;
                    lemma_log_header_total(data@);
                }
            }
            return Err(ZeroCopyOrderLogError::AccountTooSmall);
        }
        let header = hopt.unwrap().0;
        proof {
            assert forall|log2: ZeroCopyMarketOrderLog|
                (#[trigger] log2.wf()) && log2.spec_bytes() == data@ implies log2.spec_header()
                == header by {
                lemma_wf_header_decodes(log2);
            }
        }
        if header.version != ORDER_LOG_VERSION {
            return Err(ZeroCopyOrderLogError::UnsupportedVersion);
        }
        let current_entry_size = get_entry_serialized_size();
        if header.entry_size != current_entry_size as u64 {
            return Err(ZeroCopyOrderLogError::InvalidEntrySize);
        }
        if header.capacity == 0 {
            return Err(ZeroCopyOrderLogError::InvalidCapacity);
        }
        let required128: u128 = (LOG_HEADER_SIZE as u128) + (header.capacity as u128)
            * (current_entry_size as u128);
        proof {
            assert((header.capacity as int) * 453 <= 0xffff_ffff_ffff_ffff_u64 * 453
                && (header.capacity as int) * 453 >= 0) by (nonlinear_arith)
                requires
                    0 <= header.capacity <= 0xffff_ffff_ffff_ffff_u64,
            ;
        }
        if required128 > data.len() as u128 {
            return Err(ZeroCopyOrderLogError::AccountTooSmall);
        }
        if header.entry_count > header.capacity {
            return Err(ZeroCopyOrderLogError::CorruptedData);
        }
        proof {
            assert(spec_dec_log_header(data@) matches Some(hh) && hh.0 == header);
        }
        let count = header.entry_count as usize;
        proof {
            assert((header.entry_count as int) * 453 <= (header.capacity as int) * 453)
                by (nonlinear_arith)
                requires
                    0 <= header.entry_count <= header.capacity,
            ;
        }
        let mut entries: Ghost<Seq<OrderLogEntry>> = Ghost(Seq::empty());
        let mut i: usize = 0;
        while i < count
            invariant
                count == header.entry_count,
                header.version == ORDER_LOG_VERSION,
                header.entry_size == 453,
                header.capacity >= 1,
                (spec_dec_log_header(data@) matches Some(hh) && hh.0 == header),
                forall|log2: ZeroCopyMarketOrderLog|
                    (#[trigger] log2.wf()) && log2.spec_bytes() == data@ ==> log2.spec_header()
                        == header,
                LOG_HEADER_SIZE + header.capacity * 453 <= data@.len() <= usize::MAX,
                header.entry_count <= header.capacity,
                0 <= i <= count,
                entries@.len() == i,
                forall|k: int|
                    0 <= k < i ==> {
                        let e = #[trigger] entries@[k];
                        let off = LOG_HEADER_SIZE + k * 453;
                        &&& spec_enc_log_entry(e).len() <= 453
                        &&& data@.subrange(off, off + spec_enc_log_entry(e).len() as int)
                            == spec_enc_log_entry(e)
                    },
            decreases count - i,
        {
            proof {
                assert((i + 1) * 453 <= (header.capacity as int) * 453 && 0 <= (i as int) * 453)
                    by (nonlinear_arith)
                    requires
                        0 <= i < header.entry_count <= header.capacity,
                ;
                assert((i as int) * 453 + 453 == (i + 1) * 453) by (nonlinear_arith);
            }
            let pos = LOG_HEADER_SIZE + i * LOG_ENTRY_STRIDE;
            let vopt = dec_log_entry(&data, pos);
            if vopt.is_none() {
                proof {
                    assert forall|log2: ZeroCopyMarketOrderLog|
                        (#[trigger] log2.wf()) && log2.spec_bytes() == data@ implies false by {
                        lemma_wf_entry_decodes(log2, i as int);
                    }
                }
                return Err(ZeroCopyOrderLogError::CorruptedData);
            }
            let v = vopt.unwrap();
            if v.1 - pos > LOG_ENTRY_STRIDE {
                proof {
                    assert forall|log2: ZeroCopyMarketOrderLog|
                        (#[trigger] log2.wf()) && log2.spec_bytes() == data@ implies false by {
                        lemma_wf_entry_decodes(log2, i as int);
                        let e2 = log2.spec_entries()[i as int];
                        let len2 = spec_enc_log_entry(e2).len() as int;
                        assert(data@.skip(v.1 as int).len() == data@.len() - v.1);
                        assert(data@.skip(pos + len2).len() == data@.len() - (pos + len2));
                        assert(v.1 == pos + len2);
                    }
                }
                return Err(ZeroCopyOrderLogError::InvalidEntrySize);
            }
            proof {
                lemma_log_entry_sound(data@.skip(pos as int));
                assert(data@.skip(pos as int) == spec_enc_log_entry(v.0) + data@.skip(v.1 as int));
                assert(spec_enc_log_entry(v.0).len() == v.1 - pos) by {
                    assert((spec_enc_log_entry(v.0) + data@.skip(v.1 as int)).len() == data@.skip(
                        pos as int,
                    ).len());
                };
                assert(data@.subrange(pos as int, pos + spec_enc_log_entry(v.0).len() as int)
                    =~= spec_enc_log_entry(v.0));
                entries@ = entries@.push(v.0);
            }
            i = i + 1;
        }
        proof {
            assert(LOG_ENTRY_STRIDE == 453);
            assert forall|k: int| 0 <= k < entries@.len() implies (#[trigger] spec_dec_log_entry(
                data@.skip(LOG_HEADER_SIZE + k * (LOG_ENTRY_STRIDE as int)),
            ) matches Some(w) && w.0 == entries@[k]) by {
                assert(0 <= k * 453 && k * 453 + 453 <= (header.capacity as int) * 453)
                    by (nonlinear_arith)
                    requires
                        0 <= k < count && count <= header.capacity,
                ;
                lemma_entry_decodes_at(data@, entries@[k], LOG_HEADER_SIZE + k * 453);
            }
        }
        let log = ZeroCopyMarketOrderLog { data, header, entries };
        proof {
            assert(log.data@.subrange(0, LOG_HEADER_SIZE as int) =~= spec_enc_log_header(header))
                by {
                lemma_log_header_sound(log.data@.skip(0));
                assert(log.data@.skip(0) =~= log.data@);
                lemma_log_header_size(header);
            };
        }
        Ok(log)
    }

    /// Give the byte range back, for the host to persist: exactly the
    /// log's bytes.
    pub fn into_bytes(self) -> (r: Vec<u8>)
        ensures
            r@ == self.spec_bytes(),
    {
        self.data
    }
}

/// A fresh header for `market_id`, page `page`, holding `capacity`
/// entries at the canonical stride.
pub open spec fn spec_fresh_log_header(market_id: u64, page: u32, capacity: u64) -> MarketOrderLogHeader {
    MarketOrderLogHeader {
        version: ORDER_LOG_VERSION,
        _pad1: vstd::array::spec_array_fill_for_copy_type::<u8, 7>(0u8),
        market_id,
        page,
        _pad2: vstd::array::spec_array_fill_for_copy_type::<u8, 4>(0u8),
        capacity,
        entry_count: 0,
        entry_size: 453,
        _pad3: vstd::array::spec_array_fill_for_copy_type::<u8, 32>(0u8),
    }
}

/// An encoded log header is exactly the header size.
pub proof fn lemma_log_header_size(h: MarketOrderLogHeader)
    ensures
        spec_enc_log_header(h).len() == LOG_HEADER_SIZE,
{
    crate::codec::lemma_prim_round_trip();
    broadcast use vstd::array::array_len_matches_n;

}

/// A byte range long enough for a header always decodes one.
pub proof fn lemma_log_header_total(s: Seq<u8>)
    requires
        s.len() >= LOG_HEADER_SIZE,
    ensures
        spec_dec_log_header(s) is Some,
{
    assert(spec_dec_u8(s) is Some);
    let s1 = spec_dec_u8(s)->Some_0.1;
    assert(s1.len() >= 79);
    assert(spec_dec_arr::<7>(s1) is Some);
    let s2 = spec_dec_arr::<7>(s1)->Some_0.1;
    assert(s2.len() >= 72);
    assert(spec_dec_u64(s2) is Some);
    let s3 = spec_dec_u64(s2)->Some_0.1;
    assert(s3.len() >= 64);
    assert(spec_dec_u32(s3) is Some);
    let s4 = spec_dec_u32(s3)->Some_0.1;
    assert(s4.len() >= 60);
    assert(spec_dec_arr::<4>(s4) is Some);
    let s5 = spec_dec_arr::<4>(s4)->Some_0.1;
    assert(s5.len() >= 56);
    assert(spec_dec_u64(s5) is Some);
    let s6 = spec_dec_u64(s5)->Some_0.1;
    assert(s6.len() >= 48);
    assert(spec_dec_u64(s6) is Some);
    let s7 = spec_dec_u64(s6)->Some_0.1;
    assert(s7.len() >= 40);
    assert(spec_dec_u64(s7) is Some);
    let s8 = spec_dec_u64(s7)->Some_0.1;
    assert(s8.len() >= 32);
    assert(spec_dec_arr::<32>(s8) is Some);
}

/// A freshly initialized buffer carries a well-formed empty log.
pub proof fn lemma_fresh_buffer_wf(data: Vec<u8>, market_id: u64, page: u32, capacity: u64)
    requires
        capacity >= 1,
        LOG_HEADER_SIZE + capacity * LOG_ENTRY_STRIDE <= data@.len(),
        data@.len() <= usize::MAX,
        data@.subrange(0, LOG_HEADER_SIZE as int) == spec_enc_log_header(
            spec_fresh_log_header(market_id, page, capacity),
        ),
    ensures
        exists|log2: ZeroCopyMarketOrderLog| (#[trigger] log2.wf()) && log2.spec_bytes() == data@,
        spec_dec_log_header(data@) == Some(
            (spec_fresh_log_header(market_id, page, capacity), data@.skip(LOG_HEADER_SIZE as int)),
        ),
{
    let fresh = spec_fresh_log_header(market_id, page, capacity);
    let log2 = ZeroCopyMarketOrderLog { data, header: fresh, entries: Ghost(Seq::empty()) };
    assert(log2.wf());
    assert(log2.spec_bytes() == data@);
    lemma_wf_header_decodes(log2);
}

/// A well-formed log's bytes decode to its header.
pub proof fn lemma_wf_header_decodes(log2: ZeroCopyMarketOrderLog)
    requires
        log2.wf(),
    ensures
        spec_dec_log_header(log2.spec_bytes()) == Some(
            (log2.spec_header(), log2.spec_bytes().skip(LOG_HEADER_SIZE as int)),
        ),
{
    lemma_log_header_size(log2.spec_header());
    lemma_skip_concat(log2.spec_bytes(), spec_enc_log_header(log2.spec_header()), 0);
    lemma_log_header_round_trip(
        log2.spec_header(),
        log2.spec_bytes().skip(LOG_HEADER_SIZE as int),
    );
    assert(log2.spec_bytes().skip(0) =~= log2.spec_bytes());
}

/// A well-formed log's bytes decode each written entry at its slot,
/// consuming no more than the stride.
pub proof fn lemma_wf_entry_decodes(log2: ZeroCopyMarketOrderLog, i: int)
    requires
        log2.wf(),
        0 <= i < log2.spec_entries().len(),
    ensures
        ({
            let pos = LOG_HEADER_SIZE + i * (LOG_ENTRY_STRIDE as int);
            let e = log2.spec_entries()[i];
            &&& spec_enc_log_entry(e).len() <= LOG_ENTRY_STRIDE
            &&& spec_dec_log_entry(log2.spec_bytes().skip(pos)) == Some(
                (e, log2.spec_bytes().skip(pos + spec_enc_log_entry(e).len() as int)),
            )
        }),
{
    let h = log2.spec_header();
    assert(0 <= i * 453 && i * 453 + 453 <= (h.capacity as int) * 453) by (nonlinear_arith)
        requires
            0 <= i < h.entry_count <= h.capacity,
    ;
    lemma_entry_decodes_at(
        log2.spec_bytes(),
        log2.spec_entries()[i],
        LOG_HEADER_SIZE + i * (LOG_ENTRY_STRIDE as int),
    );
}

impl ZeroCopyMarketOrderLog {
    /// Append one entry at the next slot.  Law: the log is append-only;
    /// on success the entries are the old ones with the new entry at the
    /// end, and on failure they are unchanged, so the entry count never
    /// decreases and no written entry changes.
    pub fn append_log_entry(&mut self, entry: OrderLogEntry) -> (r: Result<
        (),
        ZeroCopyOrderLogError,
    >)
        requires
            old(self).wf(),
        ensures
            final(self).wf(),
            final(self).spec_data_len() == old(self).spec_data_len(),
            ({
                let h = old(self).spec_header();
                match r {
                    Ok(_) => {
                        &&& h.entry_count < h.capacity
                        &&& spec_enc_log_entry(entry).len() <= h.entry_size
                        &&& final(self).spec_entries() == old(self).spec_entries().push(entry)
                        &&& final(self).spec_header() == (MarketOrderLogHeader {
                            entry_count: (h.entry_count + 1) as u64,
                            ..h
                        })
                    },
                    Err(e) => {
                        &&& final(self).spec_entries() == old(self).spec_entries()
                        &&& final(self).spec_header() == h
                        &&& if h.entry_count >= h.capacity {
                            e == ZeroCopyOrderLogError::LogFull
                        } else {
                            e == ZeroCopyOrderLogError::InvalidEntrySize && spec_enc_log_entry(
                                entry,
                            ).len() > h.entry_size
                        }
                    },
                }
            }),
    {
        if self.header.entry_count >= self.header.capacity {
            return Err(ZeroCopyOrderLogError::LogFull);
        }
        let mut encoded: Vec<u8> = Vec::new();
        enc_log_entry(&mut encoded, &entry);
        if encoded.len() > LOG_ENTRY_STRIDE {
            return Err(ZeroCopyOrderLogError::InvalidEntrySize);
        }
        let idx = self.header.entry_count as usize;
        proof {
            assert((idx as int) * 453 + 453 <= (self.header.capacity as int) * 453
                && 0 <= (idx as int) * 453) by (nonlinear_arith)
                requires
                    0 <= idx < self.header.capacity,
            ;
        }
        let pos = LOG_HEADER_SIZE + idx * LOG_ENTRY_STRIDE;
        write_bytes_at(&mut self.data, pos, &encoded);
        let mut new_header = self.header;
        new_header.entry_count = new_header.entry_count + 1;
        let mut hbytes: Vec<u8> = Vec::new();
        enc_log_header(&mut hbytes, &new_header);
        proof {
            lemma_log_header_size(new_header);
        }
        write_bytes_at(&mut self.data, 0, &hbytes);
        self.header = new_header;
        proof {
            self.entries@ = self.entries@.push(entry);
        }
        proof {
            let h = old(self).spec_header();
            assert(self.data@.subrange(0, LOG_HEADER_SIZE as int) =~= spec_enc_log_header(
                new_header,
            ));
            assert forall|i: int| 0 <= i < self.entries@.len() implies {
                let e = #[trigger] self.entries@[i];
                let off = LOG_HEADER_SIZE + i * (new_header.entry_size as int);
                &&& spec_enc_log_entry(e).len() <= new_header.entry_size
                &&& self.data@.subrange(off, off + spec_enc_log_entry(e).len() as int)
                    == spec_enc_log_entry(e)
            } by {
                let e = self.entries@[i];
                let off = LOG_HEADER_SIZE + i * 453;
                if i < old(self).spec_entries().len() {
                    assert(e == old(self).spec_entries()[i]);
                    assert((i as int) * 453 + 453 <= (idx as int) * 453) by (nonlinear_arith)
                        requires
                            0 <= i < idx,
                    ;
                    assert(self.data@.subrange(off, off + spec_enc_log_entry(e).len() as int)
                        =~= old(self).data@.subrange(
                        off,
                        off + spec_enc_log_entry(e).len() as int,
                    ));
                } else {
                    assert(e == entry);
                    assert(self.data@.subrange(off, off + spec_enc_log_entry(e).len() as int)
                        =~= encoded@);
                }
            }
        }
        Ok(())
    }

    /// Append an event entry built from its parts.
    pub fn append_entry(
        &mut self,
        user: Pubkey,
        order_id: u64,
        update_type: OrderUpdateType,
        order_details: OrderDetails,
        fill_details: Option<FillLogDetails>,
        slot: u64,
    ) -> (r: Result<(), ZeroCopyOrderLogError>)
        requires
            old(self).wf(),
        ensures
            final(self).wf(),
            final(self).spec_data_len() == old(self).spec_data_len(),
            ({
                let entry = OrderLogEntry {
                    user,
                    order_id,
                    update_type,
                    order_details,
                    fill_details: match fill_details {
                        Some(f) => f,
                        None => (FillLogDetails {
                            price: 0,
                            qty: 0,
                            account: crate::cma::CmaFillResult {
                                new_net_position: 0,
                                old_net_position: 0,
                                realized_pnl_banked: 0,
                            },
                        }),
                    },
                    slot,
                };
                let h = old(self).spec_header();
                match r {
                    Ok(_) => {
                        &&& h.entry_count < h.capacity
                        &&& final(self).spec_entries() == old(self).spec_entries().push(entry)
                        &&& final(self).spec_header() == (MarketOrderLogHeader {
                            entry_count: (h.entry_count + 1) as u64,
                            ..h
                        })
                    },
                    Err(e) => {
                        &&& final(self).spec_entries() == old(self).spec_entries()
                        &&& final(self).spec_header() == h
                        &&& if h.entry_count >= h.capacity {
                            e == ZeroCopyOrderLogError::LogFull
                        } else {
                            e == ZeroCopyOrderLogError::InvalidEntrySize && spec_enc_log_entry(
                                entry,
                            ).len() > h.entry_size
                        }
                    },
                }
            }),
    {
        let fill_logged = match fill_details {
            Some(fill_details) => fill_details,
            None => FillLogDetails::empty(),
        };
        let entry = OrderLogEntry {
            user,
            order_id,
            update_type,
            order_details,
            fill_details: fill_logged,
            slot,
        };
        self.append_log_entry(entry)
    }

    /// Append a synthetic collateral-snapshot entry.
    pub fn append_user_collateral_update(
        &mut self,
        user: Pubkey,
        collateral_snapshot: u64,
        slot: u64,
    ) -> (r: Result<(), ZeroCopyOrderLogError>)
        requires
            old(self).wf(),
        ensures
            final(self).wf(),
            final(self).spec_data_len() == old(self).spec_data_len(),
            match r {
                Ok(_) => {
                    &&& final(self).spec_entries().len() == old(self).spec_entries().len() + 1
                    &&& final(self).spec_entries().drop_last() == old(self).spec_entries()
                    &&& final(self).spec_entries().last().spec_is_collateral_update(
                        user,
                        collateral_snapshot,
                        slot,
                    )
                },
                Err(_) => final(self).spec_entries() == old(self).spec_entries(),
            },
    {
        let entry = OrderLogEntry::synth_user_collateral_update(user, collateral_snapshot, slot);
        let r = self.append_log_entry(entry);
        proof {
            if r is Ok {
                assert(final(self).spec_entries().drop_last() =~= old(self).spec_entries());
            }
        }
        r
    }

    /// Read the entry at `idx`.
    pub fn read_entry(&self, idx: u64) -> (r: Result<OrderLogEntry, ZeroCopyOrderLogError>)
        requires
            self.wf(),
        ensures
            match r {
                Ok(e) => idx < self.spec_entries().len() && e == self.spec_entries()[idx as int],
                Err(e) => e == ZeroCopyOrderLogError::CorruptedData && idx >= self.spec_entries().len(),
            },
    {
        if idx >= self.header.entry_count {
            return Err(ZeroCopyOrderLogError::CorruptedData);
        }
        let i = idx as usize;
        proof {
            assert((i as int) * 453 + 453 <= (self.header.capacity as int) * 453 && 0 <= (i as int)
                * 453) by (nonlinear_arith)
                requires
                    0 <= i < self.header.entry_count <= self.header.capacity,
            ;
        }
        let pos = LOG_HEADER_SIZE + i * LOG_ENTRY_STRIDE;
        let ghost e = self.spec_entries()[idx as int];
        proof {
            lemma_entry_decodes_at(self.data@, e, pos as int);
        }
        match dec_log_entry(&self.data, pos) {
            Some(v) => Ok(v.0),
            None => Err(ZeroCopyOrderLogError::CorruptedData),
        }
    }

    /// Basic information from the header, without scanning entries.
    pub fn get_basic_info(&self) -> (r: ZeroCopyOrderLogInfo)
        requires
            self.wf(),
        ensures
            r == (ZeroCopyOrderLogInfo {
                market_id: self.spec_header().market_id,
                page: self.spec_header().page,
                capacity: self.spec_header().capacity,
                entry_count: self.spec_header().entry_count,
                entry_size: self.spec_header().entry_size as usize,
                version: self.spec_header().version,
            }),
    {
        ZeroCopyOrderLogInfo {
            market_id: self.header.market_id,
            page: self.header.page,
            capacity: self.header.capacity,
            entry_count: self.header.entry_count,
            entry_size: self.header.entry_size as usize,
            version: self.header.version,
        }
    }

    /// The capacity of the log.
    pub fn capacity(&self) -> (r: u64)
        requires
            self.wf(),
        ensures
            r == self.spec_header().capacity,
    {
        self.header.capacity
    }

    /// Whether the log is within a tenth of its capacity and a doubled
    /// capacity would not fit in the current account size.
    pub fn needs_realloc(&self, current_account_size: usize) -> (r: bool)
        requires
            self.wf(),
        ensures
            ({
                let h = self.spec_header();
                r == (h.entry_count >= (h.capacity * 9) / 10 && LOG_HEADER_SIZE + (h.capacity * 2)
                    * h.entry_size > current_account_size)
            }),
    {
        let h = self.header;
        proof {
            assert(0 <= (h.capacity as int) * 9 && (h.capacity as int) * 9
                <= 0xffff_ffff_ffff_ffff_u64 * 9) by (nonlinear_arith)
                requires
                    0 <= h.capacity <= 0xffff_ffff_ffff_ffff_u64,
            ;
            assert(0 <= (h.capacity as int) * 2 * 453 && (h.capacity as int) * 2 * 453
                <= 0xffff_ffff_ffff_ffff_u64 * 2 * 453) by (nonlinear_arith)
                requires
                    0 <= h.capacity <= 0xffff_ffff_ffff_ffff_u64,
            ;
        }
        let capacity_threshold: u64 = ((h.capacity as u128) * 9 / 10) as u64;
        if h.entry_count >= capacity_threshold {
            let required128: u128 = (LOG_HEADER_SIZE as u128) + ((h.capacity as u128) * 2)
                * (h.entry_size as u128);
            required128 > current_account_size as u128
        } else {
            false
        }
    }

    /// The byte size the current capacity occupies.
    pub fn estimated_serialized_size(&self) -> (r: usize)
        requires
            self.wf(),
        ensures
            r == LOG_HEADER_SIZE + self.spec_header().capacity * self.spec_header().entry_size,
    {
        proof {
            assert((self.header.capacity as int) * 453 >= 0) by (nonlinear_arith)
                requires
                    self.header.capacity >= 0,
            ;
        }
        LOG_HEADER_SIZE + (self.header.capacity as usize) * (self.header.entry_size as usize)
    }

    /// Grow the stored capacity after the host has grown the account.
    /// Shrinking below the entry count is rejected, and the buffer must
    /// already hold the new capacity.
    pub fn update_capacity(&mut self, new_capacity: u64) -> (r: Result<(), ZeroCopyOrderLogError>)
        requires
            old(self).wf(),
        ensures
            final(self).wf(),
            final(self).spec_entries() == old(self).spec_entries(),
            match r {
                Ok(_) => new_capacity >= 1 && new_capacity >= old(self).spec_header().entry_count
                    && final(self).spec_header() == (MarketOrderLogHeader {
                    capacity: new_capacity,
                    ..old(self).spec_header()
                }),
                Err(_) => final(self).spec_header() == old(self).spec_header(),
            },
    {
        if new_capacity < self.header.entry_count || new_capacity == 0 {
            return Err(ZeroCopyOrderLogError::InvalidCapacity);
        }
        proof {
            assert((new_capacity as int) * 453 >= 0 && (new_capacity as int) * 453
                <= 0xffff_ffff_ffff_ffff_u64 * 453) by (nonlinear_arith)
                requires
                    0 <= new_capacity <= 0xffff_ffff_ffff_ffff_u64,
            ;
        }
        let required128: u128 = (LOG_HEADER_SIZE as u128) + (new_capacity as u128)
            * (LOG_ENTRY_STRIDE as u128);
        let n = self.data.len();
        if required128 > n as u128 {
            return Err(ZeroCopyOrderLogError::AccountTooSmall);
        }
        let mut new_header = self.header;
        new_header.capacity = new_capacity;
        let mut hbytes: Vec<u8> = Vec::new();
        enc_log_header(&mut hbytes, &new_header);
        proof {
            lemma_log_header_size(new_header);
        }
        write_bytes_at(&mut self.data, 0, &hbytes);
        self.header = new_header;
        proof {
            assert(self.data@.subrange(0, LOG_HEADER_SIZE as int) =~= spec_enc_log_header(
                new_header,
            ));
            assert forall|i: int| 0 <= i < self.entries@.len() implies {
                let e = #[trigger] self.entries@[i];
                let off = LOG_HEADER_SIZE + i * (new_header.entry_size as int);
                &&& spec_enc_log_entry(e).len() <= new_header.entry_size
                &&& self.data@.subrange(off, off + spec_enc_log_entry(e).len() as int)
                    == spec_enc_log_entry(e)
            } by {
                let e = self.entries@[i];
                let off = LOG_HEADER_SIZE + i * 453;
                let ghost oc = old(self).spec_header().capacity;
                let ghost on = old(self).spec_header().entry_count;
                assert((i as int) * 453 >= 0 && (i as int) * 453 + 453 <= (oc as int) * 453)
                    by (nonlinear_arith)
                    requires
                        0 <= i < on <= oc,
                ;
                assert(self.data@.subrange(off, off + spec_enc_log_entry(e).len() as int) =~= old(self).data@.subrange(off, off + spec_enc_log_entry(e).len() as int));
            }
        }
        Ok(())
    }

    /// Tally the entries by event kind.
    pub fn get_stats(&self) -> (r: Result<MarketOrderLogStats, ZeroCopyOrderLogError>)
        requires
            self.wf(),
        ensures
            match r {
                Ok(st) => {
                    &&& st.total_entries == self.spec_header().entry_count
                    &&& st.order_entries == spec_count_class(self.spec_entries(), 0)
                    &&& st.cancels == spec_count_class(self.spec_entries(), 1)
                    &&& st.fills == spec_count_class(self.spec_entries(), 2)
                    &&& st.liquidations == spec_count_class(self.spec_entries(), 3)
                    &&& st.close_positions == spec_count_class(self.spec_entries(), 4)
                    &&& st.user_collateral_updates == spec_count_class(self.spec_entries(), 5)
                    &&& st.other == spec_count_class(self.spec_entries(), 6)
                },
                Err(_) => false,
            },
    {
        let entries = match self.iter_entries() {
            Ok(v) => v,
            Err(e) => { return Err(e) },
        };
        let counts = crate::market_order_log::count_classes(&entries);
        Ok(
            MarketOrderLogStats {
                total_entries: self.header.entry_count,
                order_entries: counts.0,
                cancels: counts.1,
                fills: counts.2,
                liquidations: counts.3,
                close_positions: counts.4,
                user_collateral_updates: counts.5,
                other: counts.6,
            },
        )
    }

    /// Decode the entries in `start..end`, with `end` clamped to the
    /// entry count and `start` clamped to `end`.
    pub fn iter_entries_range(&self, start: u64, end: u64) -> (r: Result<
        Vec<OrderLogEntry>,
        ZeroCopyOrderLogError,
    >)
        requires
            self.wf(),
        ensures
            match r {
                Ok(v) => {
                    let actual_end = if end <= self.spec_entries().len() {
                        end as int
                    } else {
                        self.spec_entries().len() as int
                    };
                    let actual_start = if start <= actual_end {
                        start as int
                    } else {
                        actual_end
                    };
                    v@ == self.spec_entries().subrange(actual_start, actual_end)
                },
                Err(_) => false,
            },
    {
        let count = self.header.entry_count;
        let actual_end: u64 = if end <= count {
            end
        } else {
            count
        };
        let actual_start: u64 = if start <= actual_end {
            start
        } else {
            actual_end
        };
        let mut out: Vec<OrderLogEntry> = Vec::new();
        let mut i: u64 = actual_start;
        while i < actual_end
            invariant
                self.wf(),
                actual_start <= i <= actual_end,
                actual_end <= self.spec_entries().len(),
                out@ == self.spec_entries().subrange(actual_start as int, i as int),
            decreases actual_end - i,
        {
            let e = match self.read_entry(i) {
                Ok(e) => e,
                Err(err) => { return Err(err) },
            };
            out.push(e);
            proof {
                assert(out@ =~= self.spec_entries().subrange(actual_start as int, i + 1));
            }
            i = i + 1;
        }
        Ok(out)
    }

    /// Decode all entries.
    pub fn iter_entries(&self) -> (r: Result<Vec<OrderLogEntry>, ZeroCopyOrderLogError>)
        requires
            self.wf(),
        ensures
            match r {
                Ok(v) => v@ == self.spec_entries(),
                Err(_) => false,
            },
    {
        let r = self.iter_entries_range(0, self.header.entry_count);
        proof {
            assert(self.spec_entries().subrange(0, self.spec_entries().len() as int)
                =~= self.spec_entries());
        }
        r
    }
}

/// An entry whose canonical bytes sit at `pos` decodes from there.
#[verifier::rlimit(100)]
#[verifier::spinoff_prover]
proof fn lemma_entry_decodes_at(data: Seq<u8>, e: OrderLogEntry, pos: int)
    requires
        0 <= pos,
        pos + spec_enc_log_entry(e).len() <= data.len(),
        data.subrange(pos, pos + spec_enc_log_entry(e).len() as int) == spec_enc_log_entry(e),
    ensures
        spec_dec_log_entry(data.skip(pos)) == Some(
            (e, data.skip(pos + spec_enc_log_entry(e).len() as int)),
        ),
{
    lemma_skip_concat(data, spec_enc_log_entry(e), pos);
    lemma_log_entry_round_trip(e, data.skip(pos + spec_enc_log_entry(e).len() as int));
}

/// Skipping to a region that holds `b` splits the tail as `b` followed
/// by the rest.
pub(crate) proof fn lemma_skip_concat(data: Seq<u8>, b: Seq<u8>, pos: int)
    requires
        0 <= pos,
        pos + b.len() <= data.len(),
        data.subrange(pos, pos + b.len() as int) == b,
    ensures
        data.skip(pos) == b + data.skip(pos + b.len() as int),
{
    assert(data.skip(pos) =~= b + data.skip(pos + b.len() as int));
}

impl ZeroCopyMarketOrderLog {
    /// Facts a well-formed log exposes to its callers.
    pub proof fn lemma_wf_facts(self)
        requires
            self.wf(),
        ensures
            self.spec_entries().len() == self.spec_header().entry_count,
            self.spec_header().capacity >= 1,
            self.spec_header().entry_size == LOG_ENTRY_STRIDE,
            self.spec_header().entry_count <= self.spec_header().capacity,
            self.spec_header().version == ORDER_LOG_VERSION,
    {
    }
}

} // verus!
