//! Convenience wrapper over the zero-copy market order log.
//!
//! Presents the growable log's interface over the fixed byte-range form,
//! forwarding every operation.

use vstd::prelude::*;

use crate::keys::Pubkey;
use crate::market_order_log::spec_count_class;
use crate::market_order_log::FillLogDetails;
use crate::market_order_log::MarketOrderLogStats;
use crate::market_order_log::OrderLogEntry;
use crate::market_order_log::OrderUpdateType;
use crate::order::OrderDetails;
use crate::zero_copy_market_order_log::spec_dec_log_header;
use crate::zero_copy_market_order_log::spec_fresh_log_header;
use crate::zero_copy_market_order_log::MarketOrderLogHeader;
use crate::zero_copy_market_order_log::ZeroCopyMarketOrderLog;
use crate::zero_copy_market_order_log::ZeroCopyOrderLogError;
use crate::zero_copy_market_order_log::ZeroCopyOrderLogInfo;
use crate::zero_copy_market_order_log::LOG_ENTRY_STRIDE;
use crate::zero_copy_market_order_log::LOG_HEADER_SIZE;

verus! {

/// High-level handle on a zero-copy market order log.
pub struct MarketOrderLogWrapper {
    inner: ZeroCopyMarketOrderLog,
}

impl MarketOrderLogWrapper {
    /// The entries the wrapped log holds.
    pub closed spec fn spec_entries(self) -> Seq<OrderLogEntry> {
        self.inner.spec_entries()
    }

    /// The wrapped log's header.
    pub closed spec fn spec_header(self) -> MarketOrderLogHeader {
        self.inner.spec_header()
    }

    /// Well-formedness of the wrapped log.
    pub closed spec fn wf(self) -> bool {
        self.inner.wf()
    }

    /// The underlying byte range.
    pub closed spec fn spec_bytes(self) -> Seq<u8> {
        self.inner.spec_bytes()
    }

    /// Initialize a byte range and load it as a fresh log.  Succeeds
    /// exactly when the capacity is at least one and the buffer holds it.
    pub fn new(mut data: Vec<u8>, market_id: u64, page: u32, capacity: u64) -> (r: Result<
        Self,
        ZeroCopyOrderLogError,
    >)
        ensures
            match r {
                Ok(w) => {
                    &&& capacity >= 1
                    &&& LOG_HEADER_SIZE + capacity * LOG_ENTRY_STRIDE <= data@.len()
                    &&& w.wf()
                    &&& w.spec_entries().len() == 0
                    &&& w.spec_header() == spec_fresh_log_header(market_id, page, capacity)
                },
                Err(e) => if capacity == 0 {
                    e == ZeroCopyOrderLogError::InvalidCapacity
                } else {
                    e == ZeroCopyOrderLogError::AccountTooSmall && LOG_HEADER_SIZE + capacity
                        * LOG_ENTRY_STRIDE > data@.len()
                },
            },
    {
        match ZeroCopyMarketOrderLog::init_in_buffer(&mut data, market_id, page, capacity) {
            Ok(_) => {},
            Err(e) => { return Err(e) },
        }
        let buffer_len = data.len();
        proof {
            assert(data@.len() == buffer_len);
            crate::zero_copy_market_order_log::lemma_fresh_buffer_wf(
                data,
                market_id,
                page,
                capacity,
            );
        }
        let inner = match ZeroCopyMarketOrderLog::load(data) {
            Ok(l) => l,
            Err(e) => {
                proof {
                    assert(false);
                }
                return Err(e)
            },
        };
        let w = MarketOrderLogWrapper { inner };
        proof {
            w.inner.lemma_wf_facts();
        }
        if w.inner.get_basic_info().entry_count == 0 {
            Ok(w)
        } else {
            proof {
                assert(false);
            }
            Err(ZeroCopyOrderLogError::CorruptedData)
        }
    }

    /// Load an existing log byte range.  Success ties the view to the
    /// bytes; failure never happens on the bytes of a well-formed log.
    pub fn load(data: Vec<u8>) -> (r: Result<Self, ZeroCopyOrderLogError>)
        ensures
            match r {
                Ok(w) => {
                    &&& w.wf()
                    &&& w.spec_bytes() == data@
                    &&& (spec_dec_log_header(data@) matches Some(h) && w.spec_header() == h.0)
                },
                Err(_) => !(exists|log2: ZeroCopyMarketOrderLog|
                    (#[trigger] log2.wf()) && log2.spec_bytes() == data@),
            },
    {
        match ZeroCopyMarketOrderLog::load(data) {
            Ok(inner) => Ok(MarketOrderLogWrapper { inner }),
            Err(e) => Err(e),
        }
    }

    /// Append an event entry.
    pub fn append_entry(
        &mut self,
        user: Pubkey,
        order_id: u64,
        update_type: OrderUpdateType,
        order_details: OrderDetails,
        fill_details: Option<FillLogDetails>,
        slot: u64,
    ) -> (r: Result<(), ZeroCopyOrderLogError>)
        requires
            old(self).wf(),
        ensures
            final(self).wf(),
            match r {
                Ok(_) => old(self).spec_entries().len() < old(self).spec_header().capacity
                    && final(self).spec_entries().len() == old(self).spec_entries().len() + 1
                    && final(self).spec_entries().drop_last() == old(self).spec_entries(),
                Err(e) => final(self).spec_entries() == old(self).spec_entries() && (old(
                    self,
                ).spec_entries().len() >= old(self).spec_header().capacity ==> e
                    == ZeroCopyOrderLogError::LogFull),
            },
    {
        proof {
            self.inner.lemma_wf_facts();
        }
        let r = self.inner.append_entry(user, order_id, update_type, order_details, fill_details, slot);
        proof {
            if r is Ok {
                assert(final(self).spec_entries().drop_last() =~= old(self).spec_entries());
            }
        }
        r
    }

    /// Append a synthetic collateral-snapshot entry.
    pub fn append_user_collateral_update(
        &mut self,
        user: Pubkey,
        collateral_snapshot: u64,
        slot: u64,
    ) -> (r: Result<(), ZeroCopyOrderLogError>)
        requires
            old(self).wf(),
        ensures
            final(self).wf(),
            match r {
                Ok(_) => {
                    &&& final(self).spec_entries().len() == old(self).spec_entries().len() + 1
                    &&& final(self).spec_entries().drop_last() == old(self).spec_entries()
                    &&& final(self).spec_entries().last().spec_is_collateral_update(
                        user,
                        collateral_snapshot,
                        slot,
                    )
                },
                Err(_) => final(self).spec_entries() == old(self).spec_entries(),
            },
    {
        self.inner.append_user_collateral_update(user, collateral_snapshot, slot)
    }

    /// Whether the log is near capacity and would outgrow the account if
    /// doubled.
    pub fn needs_realloc(&self, current_account_size: usize) -> (r: bool)
        requires
            self.wf(),
        ensures
            ({
                let h = self.spec_header();
                r == (h.entry_count >= (h.capacity * 9) / 10 && LOG_HEADER_SIZE + (h.capacity * 2)
                    * h.entry_size > current_account_size)
            }),
    {
        self.inner.needs_realloc(current_account_size)
    }

    /// The byte size the current capacity occupies.
    pub fn estimated_serialized_size(&self) -> (r: usize)
        requires
            self.wf(),
        ensures
            r == LOG_HEADER_SIZE + self.spec_header().capacity * self.spec_header().entry_size,
    {
        self.inner.estimated_serialized_size()
    }

    /// Tally the entries by event kind.
    pub fn get_stats(&self) -> (r: Result<MarketOrderLogStats, ZeroCopyOrderLogError>)
        requires
            self.wf(),
        ensures
            match r {
                Ok(st) => {
                    &&& st.total_entries == self.spec_header().entry_count
                    &&& st.order_entries == spec_count_class(self.spec_entries(), 0)
                    &&& st.cancels == spec_count_class(self.spec_entries(), 1)
                    &&& st.fills == spec_count_class(self.spec_entries(), 2)
                    &&& st.liquidations == spec_count_class(self.spec_entries(), 3)
                    &&& st.close_positions == spec_count_class(self.spec_entries(), 4)
                    &&& st.user_collateral_updates == spec_count_class(self.spec_entries(), 5)
                    &&& st.other == spec_count_class(self.spec_entries(), 6)
                },
                Err(_) => false,
            },
    {
        self.inner.get_stats()
    }

    /// Basic information from the header.
    pub fn get_info(&self) -> (r: ZeroCopyOrderLogInfo)
        requires
            self.wf(),
        ensures
            r.market_id == self.spec_header().market_id,
            r.page == self.spec_header().page,
            r.capacity == self.spec_header().capacity,
            r.entry_count == self.spec_header().entry_count,
    {
        self.inner.get_basic_info()
    }

    /// The market this log belongs to.
    pub fn market_id(&self) -> (r: u64)
        requires
            self.wf(),
        ensures
            r == self.spec_header().market_id,
    {
        self.inner.get_basic_info().market_id
    }

    /// The page number.
    pub fn page(&self) -> (r: u32)
        requires
            self.wf(),
        ensures
            r == self.spec_header().page,
    {
        self.inner.get_basic_info().page
    }

    /// The number of entries written.
    pub fn entry_count(&self) -> (r: u64)
        requires
            self.wf(),
        ensures
            r == self.spec_header().entry_count,
            r == self.spec_entries().len(),
    {
        proof {
            self.inner.lemma_wf_facts();
        }
        self.inner.get_basic_info().entry_count
    }

    /// The capacity of the log.
    pub fn capacity(&self) -> (r: u64)
        requires
            self.wf(),
        ensures
            r == self.spec_header().capacity,
    {
        self.inner.capacity()
    }

    /// Whether no further entry fits.
    pub fn is_full(&self) -> (r: bool)
        requires
            self.wf(),
        ensures
            r == (self.spec_header().entry_count >= self.spec_header().capacity),
    {
        let info = self.inner.get_basic_info();
        info.entry_count >= info.capacity
    }

    /// The percentage of capacity in use.
    pub fn utilization_percent(&self) -> (r: u64)
        requires
            self.wf(),
        ensures
            r == (self.spec_header().entry_count * 100) / (self.spec_header().capacity as int),
    {
        let info = self.inner.get_basic_info();
        proof {
            self.inner.lemma_wf_facts();
            assert(0 <= (info.entry_count as int) * 100 <= (info.capacity as int) * 100)
                by (nonlinear_arith)
                requires
                    0 <= info.entry_count <= info.capacity,
            ;
            vstd::arithmetic::div_mod::lemma_div_is_ordered(
                (info.entry_count as int) * 100,
                (info.capacity as int) * 100,
                info.capacity as int,
            );
            vstd::arithmetic::div_mod::lemma_div_multiples_vanish(100, info.capacity as int);
            assert((info.capacity as int) * 100 == (info.capacity as int) * 100);
            assert(((info.capacity as int) * 100) / (info.capacity as int) == 100) by {
                assert((info.capacity as int) * 100 == ((info.capacity as int)) * 100);
                vstd::arithmetic::div_mod::lemma_div_by_multiple(100, info.capacity as int);
            };
        }
        ((info.entry_count as u128) * 100 / (info.capacity as u128)) as u64
    }

    /// The canonical entry stride in bytes.
    pub fn entry_size(&self) -> (r: usize)
        ensures
            r == LOG_ENTRY_STRIDE,
    {
        crate::zero_copy_market_order_log::get_entry_serialized_size()
    }

    /// Grow the stored capacity after the host has grown the account.
    pub fn update_capacity(&mut self, new_capacity: u64) -> (r: Result<(), ZeroCopyOrderLogError>)
        requires
            old(self).wf(),
        ensures
            final(self).wf(),
            final(self).spec_entries() == old(self).spec_entries(),
            match r {
                Ok(_) => final(self).spec_header() == (MarketOrderLogHeader {
                    capacity: new_capacity,
                    ..old(self).spec_header()
                }),
                Err(_) => final(self).spec_header() == old(self).spec_header(),
            },
    {
        self.inner.update_capacity(new_capacity)
    }

    /// A shared view of the wrapped log.
    pub fn inner(&self) -> (r: &ZeroCopyMarketOrderLog)
        ensures
            *r == self.inner_log(),
    {
        &self.inner
    }

    /// The wrapped log value, as a specification view.
    pub closed spec fn inner_log(self) -> ZeroCopyMarketOrderLog {
        self.inner
    }

    /// Read the entry at `idx`.
    pub fn read_entry(&self, idx: u64) -> (r: Result<OrderLogEntry, ZeroCopyOrderLogError>)
        requires
            self.wf(),
        ensures
            match r {
                Ok(e) => idx < self.spec_entries().len() && e == self.spec_entries()[idx as int],
                Err(_) => idx >= self.spec_entries().len(),
            },
    {
        self.inner.read_entry(idx)
    }

    /// Decode all entries.
    pub fn iter_entries(&self) -> (r: Result<Vec<OrderLogEntry>, ZeroCopyOrderLogError>)
        requires
            self.wf(),
        ensures
            match r {
                Ok(v) => v@ == self.spec_entries(),
                Err(_) => false,
            },
    {
        self.inner.iter_entries()
    }

    /// Decode the entries in `start..end`, clamped to the entry count.
    pub fn iter_entries_range(&self, start: u64, end: u64) -> (r: Result<
        Vec<OrderLogEntry>,
        ZeroCopyOrderLogError,
    >)
        requires
            self.wf(),
        ensures
            match r {
                Ok(v) => {
                    let actual_end = if end <= self.spec_entries().len() {
                        end as int
                    } else {
                        self.spec_entries().len() as int
                    };
                    let actual_start = if start <= actual_end {
                        start as int
                    } else {
                        actual_end
                    };
                    v@ == self.spec_entries().subrange(actual_start, actual_end)
                },
                Err(_) => false,
            },
    {
        self.inner.iter_entries_range(start, end)
    }

    /// Give the byte range back, for the host to persist: exactly the
    /// log's bytes.
    pub fn into_bytes(self) -> (r: Vec<u8>)
        ensures
            r@ == self.spec_bytes(),
    {
        self.inner.into_bytes()
    }
}

} // verus!
