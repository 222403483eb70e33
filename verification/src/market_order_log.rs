//! Market-wide append-only order event log, growable form.
//!
//! Each entry snapshots the order record at the time of the event plus the
//! fill details, keyed by user and order id.  Entries are only ever
//! appended; the entry count never decreases and written entries are never
//! changed.

use vstd::prelude::*;

use crate::cma::CmaFillResult;
use crate::error::ProgramError;
use crate::keys::Pubkey;
use crate::order::OrderDetails;

verus! {

/// The kind of event that produced a log entry.
#[derive(Debug, Clone, Copy, PartialEq, Eq, Structural)]
pub enum OrderUpdateType {
    /// Initial order placement.
    OrderEntry,
    /// Order cancellation.
    Cancel,
    /// Partial or full fill.
    Fill,
    /// Order liquidation.
    Liquidation,
    /// Close-position entry.
    ClosePosition,
    /// User collateral update: not an order event.  The entry stores the
    /// collateral snapshot in the fill quantity field and must not be
    /// mapped back to an order.
    UserCollateralUpdate,
    /// Reserved for future use.
    Reserved(u8),
}

/// Fill details recorded with a log entry.
#[derive(Debug, Clone, Copy, PartialEq, Eq, Structural)]
pub struct FillLogDetails {
    /// Fill price.
    pub price: u64,
    /// Fill quantity.
    pub qty: u64,
    /// The user's position before and after the fill.
    pub account: CmaFillResult,
}

impl FillLogDetails {
    /// Whether every field is zero.
    pub open spec fn spec_is_empty(self) -> bool {
        self == (FillLogDetails {
            price: 0,
            qty: 0,
            account: CmaFillResult {
                new_net_position: 0,
                old_net_position: 0,
                realized_pnl_banked: 0,
            },
        })
    }

    /// Fill details with every field zero, recorded for events that carry
    /// no fill.
    pub fn empty() -> (r: Self)
        ensures
            r.spec_is_empty(),
    {
        FillLogDetails {
            price: 0,
            qty: 0,
            account: CmaFillResult {
                new_net_position: 0,
                old_net_position: 0,
                realized_pnl_banked: 0,
            },
        }
    }
}

impl Default for FillLogDetails {
    /// Fill details with every field zero.
    fn default() -> (r: Self)
        ensures
            r.spec_is_empty(),
    {
        FillLogDetails::empty()
    }
}

/// One entry of the market-wide order log.
#[derive(Debug, Clone, Copy, PartialEq)]
pub struct OrderLogEntry {
    /// The user who owns the order.
    pub user: Pubkey,
    /// The order id, unique per user per market.
    pub order_id: u64,
    /// The kind of event that produced this entry.
    pub update_type: OrderUpdateType,
    /// The order record at the time of the event.
    pub order_details: OrderDetails,
    /// The fill details, zeroed for non-fill events.
    pub fill_details: FillLogDetails,
    /// The chain slot of the event.
    pub slot: u64,
}

impl OrderLogEntry {
    /// A synthetic entry recording a user's collateral snapshot: the
    /// snapshot rides in the fill quantity field and the order fields are
    /// default.
    pub open spec fn spec_is_collateral_update(self, user: Pubkey, collateral_snapshot: u64, slot: u64) -> bool {
        &&& self.user == user
        &&& self.order_id == 0
        &&& self.update_type == OrderUpdateType::UserCollateralUpdate
        &&& self.order_details.spec_fresh_default()
        &&& self.fill_details == (FillLogDetails {
            price: 0,
            qty: collateral_snapshot,
            account: CmaFillResult {
                new_net_position: 0,
                old_net_position: 0,
                realized_pnl_banked: 0,
            },
        })
        &&& self.slot == slot
    }

    /// Build a synthetic collateral-snapshot entry.
    pub fn synth_user_collateral_update(user: Pubkey, collateral_snapshot: u64, slot: u64) -> (r:
        Self)
        ensures
            r.spec_is_collateral_update(user, collateral_snapshot, slot),
    {
        let mut fill_details = FillLogDetails::empty();
        fill_details.qty = collateral_snapshot;
        OrderLogEntry {
            user,
            order_id: 0,
            update_type: OrderUpdateType::UserCollateralUpdate,
            order_details: Default::default(),
            fill_details,
            slot,
        }
    }
}

/// The estimate used for one serialized entry: key, order id, update tag,
/// default-sized order record, and slot.
pub const LOG_ENTRY_SIZE_ESTIMATE: usize = 32 + 8 + 1 + 356 + 8;

/// Market-wide append-only order log, growable form.
#[derive(Debug, Clone)]
pub struct MarketOrderLog {
    /// The market this log belongs to.
    pub market_id: u64,
    /// The page number, for pagination.
    pub page: u32,
    /// Total number of entries in this page.
    pub entry_count: u64,
    /// The entries, oldest first.
    pub entries: Vec<OrderLogEntry>,
}

/// Statistics over a log's entries, tallied by event kind.
#[derive(Debug, Clone, Copy, PartialEq, Eq, Structural)]
pub struct MarketOrderLogStats {
    pub total_entries: u64,
    pub order_entries: u64,
    pub cancels: u64,
    pub fills: u64,
    pub liquidations: u64,
    pub close_positions: u64,
    pub user_collateral_updates: u64,
    pub other: u64,
}

/// The tally class of an update type: the declaration index, with every
/// reserved variant in one class.
pub open spec fn spec_update_class(u: OrderUpdateType) -> int {
    match u {
        OrderUpdateType::OrderEntry => 0,
        OrderUpdateType::Cancel => 1,
        OrderUpdateType::Fill => 2,
        OrderUpdateType::Liquidation => 3,
        OrderUpdateType::ClosePosition => 4,
        OrderUpdateType::UserCollateralUpdate => 5,
        OrderUpdateType::Reserved(_) => 6,
    }
}

/// How many entries of `s` fall in tally class `c`.
pub open spec fn spec_count_class(s: Seq<OrderLogEntry>, c: int) -> int
    decreases s.len(),
{
    if s.len() == 0 {
        0
    } else {
        (if spec_update_class(s[0].update_type) == c {
            1int
        } else {
            0int
        }) + spec_count_class(s.drop_first(), c)
    }
}

/// A class count lies between zero and the sequence length.
pub proof fn lemma_count_class_bounds(s: Seq<OrderLogEntry>, c: int)
    ensures
        0 <= spec_count_class(s, c) <= s.len(),
    decreases s.len(),
{
    if s.len() != 0 {
        lemma_count_class_bounds(s.drop_first(), c);
    }
}

/// Splitting a class count at index `i`.
proof fn lemma_count_class_split(s: Seq<OrderLogEntry>, c: int, i: int)
    requires
        0 <= i < s.len(),
    ensures
        spec_count_class(s.skip(i), c) == (if spec_update_class(s[i].update_type) == c {
            1int
        } else {
            0int
        }) + spec_count_class(s.skip(i + 1), c),
{
    assert(s.skip(i).len() == s.len() - i);
    assert(s.skip(i)[0] == s[i]);
    assert(s.skip(i).drop_first() =~= s.skip(i + 1));
}

impl MarketOrderLog {
    /// A new empty log for `market_id`, page `page`.
    pub fn new(market_id: u64, page: u32) -> (r: Self)
        ensures
            r.market_id == market_id,
            r.page == page,
            r.entry_count == 0,
            r.entries@.len() == 0,
    {
        MarketOrderLog { market_id, page, entry_count: 0, entries: Vec::new() }
    }

    /// Append an event entry.  The log only ever grows: the new entries
    /// are the old ones with one more at the end.
    pub fn append_entry(
        &mut self,
        user: Pubkey,
        order_id: u64,
        update_type: OrderUpdateType,
        order_details: OrderDetails,
        fill_details: Option<FillLogDetails>,
        slot: u64,
    ) -> (r: Result<(), ProgramError>)
        requires
            old(self).entry_count < u64::MAX,
        ensures
            r is Ok,
            final(self).market_id == old(self).market_id,
            final(self).page == old(self).page,
            final(self).entry_count == old(self).entry_count + 1,
            final(self).entries@ == old(self).entries@.push(
                OrderLogEntry {
                    user,
                    order_id,
                    update_type,
                    order_details,
                    fill_details: match fill_details {
                        Some(f) => f,
                        None => (FillLogDetails {
                            price: 0,
                            qty: 0,
                            account: CmaFillResult {
                                new_net_position: 0,
                                old_net_position: 0,
                                realized_pnl_banked: 0,
                            },
                        }),
                    },
                    slot,
                },
            ),
    {
        let fill_logged = match fill_details {
            Some(fill_details) => fill_details,
            None => FillLogDetails::empty(),
        };
        let entry = OrderLogEntry {
            user,
            order_id,
            update_type,
            order_details,
            fill_details: fill_logged,
            slot,
        };
        self.entries.push(entry);
        self.entry_count = self.entry_count + 1;
        Ok(())
    }

    /// Append a synthetic collateral-snapshot entry.
    pub fn append_user_collateral_update(
        &mut self,
        user: Pubkey,
        collateral_snapshot: u64,
        slot: u64,
    ) -> (r: Result<(), ProgramError>)
        requires
            old(self).entry_count < u64::MAX,
        ensures
            r is Ok,
            final(self).market_id == old(self).market_id,
            final(self).page == old(self).page,
            final(self).entry_count == old(self).entry_count + 1,
            final(self).entries@.len() == old(self).entries@.len() + 1,
            final(self).entries@.drop_last() == old(self).entries@,
            final(self).entries@.last().spec_is_collateral_update(user, collateral_snapshot, slot),
    {
        let entry = OrderLogEntry::synth_user_collateral_update(user, collateral_snapshot, slot);
        self.entries.push(entry);
        self.entry_count = self.entry_count + 1;
        proof {
            assert(final(self).entries@.drop_last() =~= old(self).entries@);
        }
        Ok(())
    }

    /// The estimated serialized size of the log: a fixed base plus the
    /// per-entry estimate for each entry.
    pub fn estimated_serialized_size(&self) -> (r: usize)
        requires
            24 + self.entries@.len() * LOG_ENTRY_SIZE_ESTIMATE <= usize::MAX,
        ensures
            r == 24 + self.entries@.len() * LOG_ENTRY_SIZE_ESTIMATE,
    {
        let base_size: usize = 8 + 4 + 8;
        let vec_overhead: usize = 4;
        proof {
            assert(LOG_ENTRY_SIZE_ESTIMATE == 405);
            assert(self.entries@.len() * LOG_ENTRY_SIZE_ESTIMATE >= 0) by (nonlinear_arith)
                requires
                    self.entries@.len() >= 0 && LOG_ENTRY_SIZE_ESTIMATE == 405,
            ;
        }
        base_size + vec_overhead + self.entries.len() * LOG_ENTRY_SIZE_ESTIMATE
    }

    /// Whether the log is within a safety buffer of outgrowing its
    /// account.
    pub fn needs_realloc(&self, current_account_size: usize) -> (r: bool)
        requires
            24 + self.entries@.len() * LOG_ENTRY_SIZE_ESTIMATE + 1000 <= usize::MAX,
        ensures
            r == (24 + self.entries@.len() * LOG_ENTRY_SIZE_ESTIMATE + 1000
                > current_account_size),
    {
        let estimated_size = self.estimated_serialized_size();
        let buffer: usize = 1000;
        estimated_size + buffer > current_account_size
    }

    /// Tally the entries by event kind.
    pub fn get_stats(&self) -> (r: MarketOrderLogStats)
        ensures
            r.total_entries == self.entry_count,
            r.order_entries == spec_count_class(self.entries@, 0),
            r.cancels == spec_count_class(self.entries@, 1),
            r.fills == spec_count_class(self.entries@, 2),
            r.liquidations == spec_count_class(self.entries@, 3),
            r.close_positions == spec_count_class(self.entries@, 4),
            r.user_collateral_updates == spec_count_class(self.entries@, 5),
            r.other == spec_count_class(self.entries@, 6),
    {
        let counts = count_classes(&self.entries);
        MarketOrderLogStats {
            total_entries: self.entry_count,
            order_entries: counts.0,
            cancels: counts.1,
            fills: counts.2,
            liquidations: counts.3,
            close_positions: counts.4,
            user_collateral_updates: counts.5,
            other: counts.6,
        }
    }
}

/// Count the entries of each tally class in one pass.
pub(crate) fn count_classes(entries: &Vec<OrderLogEntry>) -> (r: (
    u64,
    u64,
    u64,
    u64,
    u64,
    u64,
    u64,
))
    ensures
        r.0 == spec_count_class(entries@, 0),
        r.1 == spec_count_class(entries@, 1),
        r.2 == spec_count_class(entries@, 2),
        r.3 == spec_count_class(entries@, 3),
        r.4 == spec_count_class(entries@, 4),
        r.5 == spec_count_class(entries@, 5),
        r.6 == spec_count_class(entries@, 6),
{
    let n = entries.len();
    let mut c0: u64 = 0;
    let mut c1: u64 = 0;
    let mut c2: u64 = 0;
    let mut c3: u64 = 0;
    let mut c4: u64 = 0;
    let mut c5: u64 = 0;
    let mut c6: u64 = 0;
    let mut i: usize = 0;
    proof {
        assert(entries@.skip(0) =~= entries@);
    }
    while i < n
        invariant
            n == entries@.len(),
            0 <= i <= n,
            c0 + spec_count_class(entries@.skip(i as int), 0) == spec_count_class(entries@, 0),
            c1 + spec_count_class(entries@.skip(i as int), 1) == spec_count_class(entries@, 1),
            c2 + spec_count_class(entries@.skip(i as int), 2) == spec_count_class(entries@, 2),
            c3 + spec_count_class(entries@.skip(i as int), 3) == spec_count_class(entries@, 3),
            c4 + spec_count_class(entries@.skip(i as int), 4) == spec_count_class(entries@, 4),
            c5 + spec_count_class(entries@.skip(i as int), 5) == spec_count_class(entries@, 5),
            c6 + spec_count_class(entries@.skip(i as int), 6) == spec_count_class(entries@, 6),
            c0 <= i && c1 <= i && c2 <= i && c3 <= i && c4 <= i && c5 <= i && c6 <= i,
        decreases n - i,
    {
        proof {
            lemma_count_class_split(entries@, 0, i as int);
            lemma_count_class_split(entries@, 1, i as int);
            lemma_count_class_split(entries@, 2, i as int);
            lemma_count_class_split(entries@, 3, i as int);
            lemma_count_class_split(entries@, 4, i as int);
            lemma_count_class_split(entries@, 5, i as int);
            lemma_count_class_split(entries@, 6, i as int);
            lemma_count_class_bounds(entries@.skip(i as int), 0);
            lemma_count_class_bounds(entries@.skip(i as int), 1);
            lemma_count_class_bounds(entries@.skip(i as int), 2);
            lemma_count_class_bounds(entries@.skip(i as int), 3);
            lemma_count_class_bounds(entries@.skip(i as int), 4);
            lemma_count_class_bounds(entries@.skip(i as int), 5);
            lemma_count_class_bounds(entries@.skip(i as int), 6);
            lemma_count_class_bounds(entries@.skip(i as int + 1), 0);
            lemma_count_class_bounds(entries@.skip(i as int + 1), 1);
            lemma_count_class_bounds(entries@.skip(i as int + 1), 2);
            lemma_count_class_bounds(entries@.skip(i as int + 1), 3);
            lemma_count_class_bounds(entries@.skip(i as int + 1), 4);
            lemma_count_class_bounds(entries@.skip(i as int + 1), 5);
            lemma_count_class_bounds(entries@.skip(i as int + 1), 6);
        }
        match entries[i].update_type {
            OrderUpdateType::OrderEntry => {
                c0 = c0 + 1;
            },
            OrderUpdateType::Cancel => {
                c1 = c1 + 1;
            },
            OrderUpdateType::Fill => {
                c2 = c2 + 1;
            },
            OrderUpdateType::Liquidation => {
                c3 = c3 + 1;
            },
            OrderUpdateType::ClosePosition => {
                c4 = c4 + 1;
            },
            OrderUpdateType::UserCollateralUpdate => {
                c5 = c5 + 1;
            },
            OrderUpdateType::Reserved(_) => {
                c6 = c6 + 1;
            },
        }
        i = i + 1;
    }
    proof {
        assert(entries@.skip(n as int).len() == 0);
    }
    (c0, c1, c2, c3, c4, c5, c6)
}

} // verus!
