//! Per-order lifecycle records.
//!
//! An order is tracked by an `OrderDetails` record in its owner's storage and
//! by a compact `OrderMarker` in the market-wide registry.  The tombstone
//! field partitions an order's life into the alive states (`Empty`,
//! `PreTrigger`, `Open`) and the dead states; once dead, an order accepts
//! neither fills nor cancellations.

use vstd::prelude::*;

verus! {

/// Side of an order or fill.
#[derive(Debug, Clone, Copy, PartialEq, Eq, Structural)]
pub enum OrderSide {
    Bid,
    Ask,
}

/// Compact registry entry for one live order.
#[derive(Debug, Clone, Copy, PartialEq, Eq)]
pub struct OrderMarker {
    pub user: crate::keys::Pubkey,
    pub order_id: u64,
    pub order_version: u16,
    pub order_page: u32,
    pub _pad1: [u8; 2],
}

impl Default for OrderMarker {
    /// A fresh marker: zero key and order id, version 1, page 0.
    fn default() -> (r: Self)
        ensures
            r.spec_is_default(),
    {
        OrderMarker {
            user: crate::keys::Pubkey::zeroed(),
            order_id: 0,
            order_version: 1,
            order_page: 0,
            _pad1: [0u8; 2],
        }
    }
}

impl OrderMarker {
    /// Whether this marker carries the fresh-marker values: zero key and
    /// order id, version 1, page 0, zero padding.
    pub open spec fn spec_is_default(self) -> bool {
        &&& self.user == crate::keys::Pubkey::spec_default()
        &&& self.order_id == 0
        &&& self.order_version == 1
        &&& self.order_page == 0
        &&& is_zero_bytes(self._pad1@)
    }

    /// A marker for `order_id` owned by `user`, otherwise default.
    pub fn new(user: crate::keys::Pubkey, order_id: u64) -> (r: Self)
        ensures
            r.user == user,
            r.order_id == order_id,
            r.order_version == 1,
            r.order_page == 0,
            is_zero_bytes(r._pad1@),
    {
        OrderMarker { user, order_id, order_version: 1, order_page: 0, _pad1: [0u8; 2] }
    }
}

/// Lifecycle state of an order.  `Empty`, `PreTrigger` and `Open` are alive;
/// every other state is terminal.
#[derive(Debug, Clone, Copy, PartialEq, Eq, Structural)]
pub enum OrderTombstone {
    Empty(),
    PreTrigger(),
    Open(),
    Filled(),
    UserCancel(),
    TriggerCancelCond1(),
    TriggerCancelCond2(),
    TriggerCancelCond3(),
    LiquidatorMargin(),
    AutoDeleverage(),
    SystemHalt(),
    Breaker(),
    PositionLimits(),
    MarketClosed(),
    SelfTrade(),
    TickRejected(),
    PriceBandRejected(),
    MinTradeRejected(),
    OpenInterestCap(),
    MaxPositionRejected(),
    MaxOrderSizeRejected(),
    CancelOnEntrySizing(),
    InvalidPrice(),
    InvalidQty(),
    InvalidCond(),
    ForceExpire(),
    Admin(),
    Error(),
}

impl OrderTombstone {
    /// Whether this state is one of the alive states.
    pub open spec fn spec_is_alive(self) -> bool {
        self == OrderTombstone::Empty() || self == OrderTombstone::PreTrigger() || self
            == OrderTombstone::Open()
    }

    /// Whether the order is still alive.
    pub fn is_alive(&self) -> (r: bool)
        ensures
            r == self.spec_is_alive(),
    {
        match self {
            OrderTombstone::Empty() => true,
            OrderTombstone::PreTrigger() => true,
            OrderTombstone::Open() => true,
            _ => false,
        }
    }

    /// Whether this state may be written by a cancellation: any dead state.
    pub fn is_valid_cancellation(&self) -> (r: bool)
        ensures
            r == !self.spec_is_alive(),
    {
        !self.is_alive()
    }
}

/// Price variant of an order.  `Market` orders carry no price; pegged orders
/// follow a reference price at a signed offset.
#[derive(Debug, Clone, Copy, PartialEq, Eq, Structural)]
pub enum OrderPrice {
    Market(),
    Limit(u64),
    PeggedOffset(i64, PegPriceReference),
}

/// Reference price that a pegged order follows.
#[derive(Debug, Clone, Copy, PartialEq, Eq, Structural)]
pub enum PegPriceReference {
    OraclePrice(),
}

/// Who created an order.  The placeholder variant reserves 16 payload bytes
/// (held as one little-endian 128-bit word) for future originators.
#[derive(Debug, Clone, Copy, PartialEq, Eq, Structural)]
pub enum OrderOriginator {
    User(),
    Keeper(),
    OffChainTrigger(),
    Twap(),
    Liquidation(),
    System(),
    Permit(),
    VariantPlaceholder(u128),
}

/// Reference price that a trigger condition watches.
#[derive(Debug, Clone, Copy, PartialEq, Eq, Structural)]
pub enum PriceReference {
    MarkPrice(),
    OraclePrice(),
    SpotPrice(),
    BidPrice(),
    AskPrice(),
    MidPrice(),
    LastTradePrice(),
}

/// Trigger condition variants for order entry and cancellation.  The
/// placeholder variant reserves 16 payload bytes (one little-endian 128-bit
/// word) for future conditions.
#[derive(Debug, Clone, Copy, PartialEq, Eq, Structural)]
pub enum TriggerCondition {
    Off(),
    PriceBelow(u64, PriceReference),
    PriceAbove(u64, PriceReference),
    OrderCancel(u64),
    OrderFill(u64),
    OrderPartialFill(u64, u16),
    ImmediateOrCancelFail(),
    FillOrKillFail(),
    AddLiquidityOnlyFail(),
    ReduceOnlyFail(),
    Time(u64),
    VariantPlaceholder(u128),
}

/// How much of an order a satisfied entry condition releases.
#[derive(Debug, Clone, Copy, PartialEq, Eq, Structural)]
pub enum TriggerEntrySize {
    PositionSizePercent(u16),
    OrderSizePercent(u16),
    FixedSize(u64),
}

/// Time-in-force variants.
#[derive(Debug, Clone, Copy, PartialEq, Eq, Structural)]
pub enum TimeInForce {
    /// Immediate or cancel: execute immediately, cancel the remainder.
    IOC,
    /// Fill or kill: execute completely or cancel entirely.
    FOK,
    /// Good till cancelled: remain active until cancelled.
    GTC,
    /// Add liquidity only: only place if the order rests.
    ALO,
    /// Good till time: remain active until the given timestamp.
    GTT(u64),
}

impl Default for TimeInForce {
    /// The default time in force is good-till-cancelled.
    fn default() -> (r: Self)
        ensures
            r == TimeInForce::GTC,
    {
        TimeInForce::GTC
    }
}

/// The cancel condition that a time-in-force choice installs at insert.
pub open spec fn spec_cancel_cond_of_tif(tif: TimeInForce) -> TriggerCondition {
    match tif {
        TimeInForce::GTC => TriggerCondition::Off(),
        TimeInForce::IOC => TriggerCondition::ImmediateOrCancelFail(),
        TimeInForce::FOK => TriggerCondition::FillOrKillFail(),
        TimeInForce::ALO => TriggerCondition::AddLiquidityOnlyFail(),
        TimeInForce::GTT(t) => TriggerCondition::Time(t),
    }
}

/// Event timestamps and running fill statistics of one order.
#[derive(Debug, Clone, Copy, PartialEq)]
pub struct EventHistory {
    pub entry_time: i64,
    pub trigger_time: i64,
    pub first_fill_time: i64,
    pub last_fill_time: i64,
    pub did_rest: bool,
    pub dead_time: i64,
    pub take_volume: u64,
    pub priced_make_volume: u64,
    pub pegged_make_volume: u64,
    pub improve_volume: u64,
    pub avg_fill_price: u64,
    pub fees_booked: u64,
    pub _pad1: [u8; 32],
    pub _pad2: [u8; 32],
}

/// Whether every byte of a padding region is zero.
pub open spec fn is_zero_bytes(s: Seq<u8>) -> bool {
    forall|i: int| 0 <= i < s.len() ==> s[i] == 0
}

impl EventHistory {
    /// Whether every field is zero or false.
    pub open spec fn spec_is_default(self) -> bool {
        &&& self.entry_time == 0
        &&& self.trigger_time == 0
        &&& self.first_fill_time == 0
        &&& self.last_fill_time == 0
        &&& self.did_rest == false
        &&& self.dead_time == 0
        &&& self.take_volume == 0
        &&& self.priced_make_volume == 0
        &&& self.pegged_make_volume == 0
        &&& self.improve_volume == 0
        &&& self.avg_fill_price == 0
        &&& self.fees_booked == 0
        &&& is_zero_bytes(self._pad1@)
        &&& is_zero_bytes(self._pad2@)
    }
}

impl Default for EventHistory {
    /// A history with every field zero.
    fn default() -> (r: Self)
        ensures
            r.spec_is_default(),
    {
        EventHistory {
            entry_time: 0,
            trigger_time: 0,
            first_fill_time: 0,
            last_fill_time: 0,
            did_rest: false,
            dead_time: 0,
            take_volume: 0,
            priced_make_volume: 0,
            pegged_make_volume: 0,
            improve_volume: 0,
            avg_fill_price: 0,
            fees_booked: 0,
            _pad1: [0u8; 32],
            _pad2: [0u8; 32],
        }
    }
}

/// Builder and referrer attribution of an order.
#[derive(Debug, Clone, Copy, PartialEq)]
pub struct BuilderTag {
    pub builder_id: u64,
    pub referrer_id: u64,
    pub _pad1: [u8; 32],
}

impl BuilderTag {
    /// Whether every field is zero.
    pub open spec fn spec_is_default(self) -> bool {
        self.builder_id == 0 && self.referrer_id == 0 && is_zero_bytes(self._pad1@)
    }
}

impl Default for BuilderTag {
    /// A tag with every field zero.
    fn default() -> (r: Self)
        ensures
            r.spec_is_default(),
    {
        BuilderTag { builder_id: 0, referrer_id: 0, _pad1: [0u8; 32] }
    }
}

/// Per-order lifecycle record held in the owning user's storage.  The three
/// padding fields reserve 120 bytes of encoded space so that the widest
/// tagged-union variants never outgrow a stored record.
#[derive(Debug, Clone, Copy, PartialEq)]
pub struct OrderDetails {
    pub order_id: u64,
    pub side: OrderSide,
    pub qty: u64,
    pub filled_qty: u64,
    pub price: OrderPrice,
    pub origin: OrderOriginator,
    pub entry_cond: TriggerCondition,
    pub entry_cond_size: TriggerEntrySize,
    pub cancel_cond: TriggerCondition,
    pub cancel_cond_2: TriggerCondition,
    pub cancel_cond_3: TriggerCondition,
    pub tombstone: OrderTombstone,
    pub event_history: EventHistory,
    pub builder_tag: BuilderTag,
    pub _pad1: [u8; 64],
    pub _pad2: [u8; 32],
    pub _pad3: [u8; 24],
}

impl OrderDetails {
    /// Whether this record carries the default value of every field that
    /// `new` does not set from its arguments, with an `Open` tombstone.
    pub open spec fn spec_fresh(self, order_id: u64, side: OrderSide, qty: u64, price: OrderPrice, tif: TimeInForce) -> bool {
        &&& self.order_id == order_id
        &&& self.side == side
        &&& self.qty == qty
        &&& self.filled_qty == 0
        &&& self.price == price
        &&& self.origin == OrderOriginator::User()
        &&& self.entry_cond == TriggerCondition::Off()
        &&& self.entry_cond_size == TriggerEntrySize::PositionSizePercent(0u16)
        &&& self.cancel_cond == spec_cancel_cond_of_tif(tif)
        &&& self.cancel_cond_2 == TriggerCondition::Off()
        &&& self.cancel_cond_3 == TriggerCondition::Off()
        &&& self.tombstone == OrderTombstone::Open()
        &&& self.event_history.spec_is_default()
        &&& self.builder_tag.spec_is_default()
        &&& is_zero_bytes(self._pad1@)
        &&& is_zero_bytes(self._pad2@)
        &&& is_zero_bytes(self._pad3@)
    }

    /// A new order record.  The time-in-force choice is folded into the
    /// cancel condition; the tombstone starts `Open`.
    pub fn new(order_id: u64, side: OrderSide, qty: u64, price: OrderPrice, tif: TimeInForce) -> (r: Self)
        ensures
            r.spec_fresh(order_id, side, qty, price, tif),
    {
        let cancel_cond = match tif {
            TimeInForce::GTC => TriggerCondition::Off(),
            TimeInForce::IOC => TriggerCondition::ImmediateOrCancelFail(),
            TimeInForce::FOK => TriggerCondition::FillOrKillFail(),
            TimeInForce::ALO => TriggerCondition::AddLiquidityOnlyFail(),
            TimeInForce::GTT(expiry_time) => TriggerCondition::Time(expiry_time),
        };
        OrderDetails {
            order_id,
            side,
            qty,
            filled_qty: 0,
            price,
            origin: OrderOriginator::User(),
            entry_cond: TriggerCondition::Off(),
            entry_cond_size: TriggerEntrySize::PositionSizePercent(0),
            cancel_cond,
            cancel_cond_2: TriggerCondition::Off(),
            cancel_cond_3: TriggerCondition::Off(),
            tombstone: OrderTombstone::Open(),
            event_history: Default::default(),
            builder_tag: Default::default(),
            _pad1: [0u8; 64],
            _pad2: [0u8; 32],
            _pad3: [0u8; 24],
        }
    }

    /// Whether this record carries the all-default values: zero ids and
    /// quantities, a market-price bid from the user, no conditions, an
    /// `Empty` tombstone, and zeroed history, tag and padding.
    pub open spec fn spec_fresh_default(self) -> bool {
        &&& self.order_id == 0
        &&& self.side == OrderSide::Bid
        &&& self.qty == 0
        &&& self.filled_qty == 0
        &&& self.price == OrderPrice::Market()
        &&& self.origin == OrderOriginator::User()
        &&& self.entry_cond == TriggerCondition::Off()
        &&& self.entry_cond_size == TriggerEntrySize::PositionSizePercent(0u16)
        &&& self.cancel_cond == TriggerCondition::Off()
        &&& self.cancel_cond_2 == TriggerCondition::Off()
        &&& self.cancel_cond_3 == TriggerCondition::Off()
        &&& self.tombstone == OrderTombstone::Empty()
        &&& self.event_history.spec_is_default()
        &&& self.builder_tag.spec_is_default()
        &&& is_zero_bytes(self._pad1@)
        &&& is_zero_bytes(self._pad2@)
        &&& is_zero_bytes(self._pad3@)
    }

    /// The quantity a cancellation would release, as a specification value.
    pub open spec fn spec_unfilled_qty(self) -> int {
        if self.filled_qty <= self.qty {
            self.qty - self.filled_qty
        } else {
            0
        }
    }

    /// Quantity not yet filled; zero when `filled_qty` exceeds `qty`.
    pub fn unfilled_qty(&self) -> (r: u64)
        ensures
            r == self.spec_unfilled_qty(),
    {
        if self.filled_qty <= self.qty {
            self.qty - self.filled_qty
        } else {
            0
        }
    }

    /// Cancel this order: reject when already dead or when the requested
    /// tombstone is not a dead state; otherwise install the tombstone,
    /// record the death time, and return the unfilled quantity and side.
    pub fn process_cancellation(&mut self, new_tombstone: &OrderTombstone, timestamp: i64) -> (r: Result<
        (u64, OrderSide),
        &'static str,
    >)
        ensures
            match r {
                Ok(v) => {
                    &&& old(self).tombstone.spec_is_alive()
                    &&& !new_tombstone.spec_is_alive()
                    &&& v.0 == old(self).spec_unfilled_qty()
                    &&& v.1 == old(self).side
                    &&& *final(self) == (OrderDetails {
                        tombstone: *new_tombstone,
                        event_history: (EventHistory { dead_time: timestamp, ..old(self).event_history }),
                        ..*old(self)
                    })
                },
                Err(m) => {
                    &&& *final(self) == *old(self)
                    &&& if !old(self).tombstone.spec_is_alive() {
                        m == "Order is already dead"
                    } else {
                        new_tombstone.spec_is_alive() && m == "Invalid cancellation tombstone"
                    }
                },
            },
    {
        if !self.tombstone.is_alive() {
            return Err("Order is already dead");
        }
        if !new_tombstone.is_valid_cancellation() {
            return Err("Invalid cancellation tombstone");
        }
        self.tombstone = new_tombstone.clone();
        self.event_history.dead_time = timestamp;
        Ok((self.unfilled_qty(), self.side))
    }

    /// The weighted average fill price after adding `fill_qty` at
    /// `fill_price` to `filled` units at `old_avg`: the first fill takes the
    /// fill price, later fills the quantity-weighted mean with integer
    /// truncation.
    pub open spec fn spec_weighted_fill_price(filled: u64, old_avg: u64, fill_qty: u64, fill_price: u64) -> int {
        if filled == 0 {
            fill_price as int
        } else {
            (filled * old_avg + fill_qty * fill_price) / (filled + fill_qty)
        }
    }

    /// Apply a fill: reject on a dead order or when `fill_qty` exceeds the
    /// unfilled quantity; otherwise add to `filled_qty`, update the weighted
    /// average fill price and fill timestamps, and mark the order `Filled`
    /// when nothing remains.
    pub fn process_fill(&mut self, fill_qty: u64, fill_price: u64, unix_timestamp: i64) -> (r: Result<
        OrderFillResult,
        &'static str,
    >)
        ensures
            match r {
                Ok(v) => {
                    let new_filled = (old(self).filled_qty + fill_qty) as u64;
                    let wavg = OrderDetails::spec_weighted_fill_price(
                        old(self).filled_qty,
                        old(self).event_history.avg_fill_price,
                        fill_qty,
                        fill_price,
                    );
                    let full = new_filled >= old(self).qty;
                    &&& old(self).tombstone.spec_is_alive()
                    &&& fill_qty <= old(self).spec_unfilled_qty()
                    &&& 0 <= wavg <= u64::MAX
                    &&& v == (OrderFillResult {
                        filled_qty: fill_qty,
                        weighted_avg_price: wavg as u64,
                        is_fully_filled: full,
                        side: old(self).side,
                    })
                    &&& *final(self) == (OrderDetails {
                        filled_qty: new_filled,
                        tombstone: if full {
                            OrderTombstone::Filled()
                        } else {
                            old(self).tombstone
                        },
                        event_history: (EventHistory {
                            avg_fill_price: wavg as u64,
                            first_fill_time: if old(self).event_history.first_fill_time == 0 {
                                unix_timestamp
                            } else {
                                old(self).event_history.first_fill_time
                            },
                            last_fill_time: unix_timestamp,
                            ..old(self).event_history
                        }),
                        ..*old(self)
                    })
                },
                Err(m) => {
                    &&& *final(self) == *old(self)
                    &&& if !old(self).tombstone.spec_is_alive() {
                        m == "Cannot fill a dead order"
                    } else {
                        fill_qty > old(self).spec_unfilled_qty() && m
                            == "Fill quantity exceeds remaining order quantity"
                    }
                },
            },
    {
        if !self.tombstone.is_alive() {
            return Err("Cannot fill a dead order");
        }
        let remaining_qty = self.unfilled_qty();
        if fill_qty > remaining_qty {
            return Err("Fill quantity exceeds remaining order quantity");
        }
        let new_filled_qty = self.filled_qty + fill_qty;
        let weighted_avg_price: u64 = if self.filled_qty == 0 {
            fill_price
        } else {
            proof {
                lemma_weighted_price_bounds(
                    self.filled_qty as int,
                    self.event_history.avg_fill_price as int,
                    fill_qty as int,
                    fill_price as int,
                );
            }
            let new_value: u128 = (fill_qty as u128) * (fill_price as u128);
            let old_value: u128 = (self.filled_qty as u128) * (self.event_history.avg_fill_price
                as u128);
            let total_value: u128 = new_value + old_value;
            (total_value / (new_filled_qty as u128)) as u64
        };
        self.filled_qty = new_filled_qty;
        self.event_history.avg_fill_price = weighted_avg_price;
        let is_fully_filled = self.filled_qty >= self.qty;
        if is_fully_filled {
            self.tombstone = OrderTombstone::Filled();
        }
        if self.event_history.first_fill_time == 0 {
            self.event_history.first_fill_time = unix_timestamp;
        }
        self.event_history.last_fill_time = unix_timestamp;
        Ok(OrderFillResult {
            filled_qty: fill_qty,
            weighted_avg_price,
            is_fully_filled,
            side: self.side,
        })
    }
}

impl Default for OrderDetails {
    /// A record with the all-default values and an `Empty` tombstone.
    fn default() -> (r: Self)
        ensures
            r.spec_fresh_default(),
    {
        OrderDetails {
            order_id: 0,
            side: OrderSide::Bid,
            qty: 0,
            filled_qty: 0,
            price: OrderPrice::Market(),
            origin: OrderOriginator::User(),
            entry_cond: TriggerCondition::Off(),
            entry_cond_size: TriggerEntrySize::PositionSizePercent(0),
            cancel_cond: TriggerCondition::Off(),
            cancel_cond_2: TriggerCondition::Off(),
            cancel_cond_3: TriggerCondition::Off(),
            tombstone: OrderTombstone::Empty(),
            event_history: Default::default(),
            builder_tag: Default::default(),
            _pad1: [0u8; 64],
            _pad2: [0u8; 32],
            _pad3: [0u8; 24],
        }
    }
}

/// A quantity-weighted mean of two prices never overflows `u128` and stays
/// within `u64` when both prices do.
proof fn lemma_weighted_price_bounds(q0: int, p0: int, q1: int, p1: int)
    requires
        0 < q0 <= u64::MAX,
        0 <= q1 <= u64::MAX,
        0 <= p0 <= u64::MAX,
        0 <= p1 <= u64::MAX,
        q0 + q1 <= u64::MAX,
    ensures
        0 <= q0 * p0 + q1 * p1 <= u128::MAX,
        (q0 * p0 + q1 * p1) / (q0 + q1) <= u64::MAX,
{
    let hi = if p0 >= p1 {
        p0
    } else {
        p1
    };
    assert(q0 * p0 + q1 * p1 <= (q0 + q1) * hi) by (nonlinear_arith)
        requires
            q0 >= 0 && q1 >= 0 && 0 <= p0 <= hi && 0 <= p1 <= hi,
    ;
    assert(q0 * p0 >= 0 && q1 * p1 >= 0) by (nonlinear_arith)
        requires
            q0 >= 0 && q1 >= 0 && p0 >= 0 && p1 >= 0,
    ;
    assert((q0 + q1) * hi <= u128::MAX) by (nonlinear_arith)
        requires
            0 <= q0 + q1 <= u64::MAX && 0 <= hi <= u64::MAX,
    ;
    assert((q0 * p0 + q1 * p1) / (q0 + q1) <= ((q0 + q1) * hi) / (q0 + q1)) by {
        vstd::arithmetic::div_mod::lemma_div_is_ordered(
            q0 * p0 + q1 * p1,
            (q0 + q1) * hi,
            q0 + q1,
        );
    };
    assert(((q0 + q1) * hi) / (q0 + q1) == hi) by {
        vstd::arithmetic::div_mod::lemma_div_multiples_vanish(hi, q0 + q1);
    };
}

/// What one `OrderDetails::process_fill` call reports back.
#[derive(Debug, Clone, PartialEq, Eq, Structural)]
pub struct OrderFillResult {
    pub filled_qty: u64,
    pub weighted_avg_price: u64,
    pub is_fully_filled: bool,
    pub side: OrderSide,
}

/// Total number of padding bytes reserved in an `OrderDetails` record.
pub const ORDER_DETAILS_RESERVED_PADDING: usize = 120;

} // verus!
