//! Cross-margin account: free balances and per-market margin buckets.
//!
//! A `CrossMarginAccountV1` holds a user's free collateral per mint and a
//! `MarginBucket` per `(scope, mint)` pair.  A bucket carries committed
//! collateral, the signed net position with its weighted average entry
//! price, and the open bid/ask quantity reserved by resting orders; the
//! margin checks compare equity at the mark price against the required
//! initial margin over the worst-case direction.

use vstd::math::abs;
use vstd::prelude::*;

use crate::error::ProgramError;
use crate::keys::Pubkey;
use crate::market::spec_sat_add_i64;
use crate::market::MarketStateV1;
use crate::math::div_trunc_1e8;
use crate::order::is_zero_bytes;
use crate::order::OrderSide;
use crate::position::abs_i64;
use crate::position::spec_unrealized_pnl;

verus! {

/// The current account record layout version.
pub const CMA_CURRENT_VERSION: u8 = 2;

/// Free (uncommitted) collateral for one mint.
#[derive(Debug, Clone, Copy, PartialEq, Eq)]
pub struct TokenBalance {
    pub mint: Pubkey,
    /// Free collateral for this mint.
    pub amount: u64,
    pub _pad: [u8; 16],
}

/// Where a margin bucket applies.  Further scopes (full-cross, cross
/// groups) extend this enum while preserving variant order.
#[derive(Debug, Clone, Copy, PartialEq, Eq, Structural)]
pub enum MarginScope {
    /// Collateral committed to a single isolated market, by numeric id.
    MarketIsolated(u64),
}

/// Committed collateral, open-order reservations and position for one
/// scope and mint.  `committed` is always in 1e-6 quote units.
#[derive(Debug, Clone, Copy, PartialEq, Eq)]
pub struct MarginBucket {
    pub scope: MarginScope,
    pub mint: Pubkey,
    /// Collateral committed to this scope, in 1e-6 quote units.
    pub committed: u64,
    /// Net position: positive long, negative short.
    pub net_position: i64,
    /// Total absolute quantity of open bid orders.
    pub open_bid_qty: u64,
    /// Total absolute quantity of open ask orders.
    pub open_ask_qty: u64,
    /// Weighted average entry price of the net position.
    pub avg_entry_price: u64,
    /// User-selected initial margin; tightens the market's rate only.
    pub user_set_im_bps: u16,
    pub _pad: [u8; 32],
}

/// What one cross-margin fill reports back: the position before and after,
/// and the realized PnL banked into committed collateral.
#[derive(Debug, Clone, Copy, PartialEq, Eq, Structural)]
pub struct CmaFillResult {
    pub new_net_position: i64,
    pub old_net_position: i64,
    pub realized_pnl_banked: i64,
}

impl Default for CmaFillResult {
    /// A result with every field zero.
    fn default() -> (r: Self)
        ensures
            r == (CmaFillResult { new_net_position: 0, old_net_position: 0, realized_pnl_banked: 0 }),
    {
        CmaFillResult { new_net_position: 0, old_net_position: 0, realized_pnl_banked: 0 }
    }
}

/// The effective initial-margin rate: the market rate, tightened by the
/// user's own setting when that is higher.
pub open spec fn spec_eff_im_bps(mkt_im_bps: u16, user_im_bps: u16) -> int {
    if mkt_im_bps >= user_im_bps {
        mkt_im_bps as int
    } else {
        user_im_bps as int
    }
}

/// Required margin for `usage` units at `mark`: the notional rescaled by
/// 1e8, times the margin rate in basis points.
pub open spec fn spec_required_margin(usage: int, mark: u64, eff_bps: int) -> int {
    ((usage * mark) / 100_000_000) * eff_bps / 10_000
}

/// Whether the required-margin computation stays within `u64`.
pub open spec fn spec_required_margin_ok(usage: int, mark: u64, eff_bps: int) -> bool {
    &&& (usage * mark) / 100_000_000 <= u64::MAX
    &&& ((usage * mark) / 100_000_000) * eff_bps <= u64::MAX
}

/// The nonnegative part of a value.
pub open spec fn spec_max0(x: int) -> int {
    if x >= 0 {
        x
    } else {
        0
    }
}

impl MarginBucket {
    /// Whether this bucket is fresh for `scope` and `mint`: every amount,
    /// position and reservation zero.
    pub open spec fn spec_is_fresh(self, scope: MarginScope, mint: Pubkey) -> bool {
        &&& self.scope == scope
        &&& self.mint == mint
        &&& self.committed == 0
        &&& self.net_position == 0
        &&& self.open_bid_qty == 0
        &&& self.open_ask_qty == 0
        &&& self.avg_entry_price == 0
        &&& self.user_set_im_bps == 0
        &&& is_zero_bytes(self._pad@)
    }

    /// A fresh bucket for `scope` and `mint` with everything zero.
    pub fn new(scope: MarginScope, mint: Pubkey) -> (r: Self)
        ensures
            r.spec_is_fresh(scope, mint),
    {
        MarginBucket {
            scope,
            mint,
            committed: 0,
            net_position: 0,
            open_bid_qty: 0,
            open_ask_qty: 0,
            avg_entry_price: 0,
            user_set_im_bps: 0,
            _pad: [0u8; 32],
        }
    }

    /// Whether this bucket holds no collateral, position or reservations.
    pub fn is_empty(&self) -> (r: bool)
        ensures
            r == (self.committed == 0 && self.net_position == 0 && self.open_bid_qty == 0
                && self.open_ask_qty == 0),
    {
        self.committed == 0 && self.net_position == 0 && self.open_bid_qty == 0
            && self.open_ask_qty == 0
    }

    /// Whether this bucket has a position or open orders.
    pub fn is_open(&self) -> (r: bool)
        ensures
            r == (self.net_position != 0 || self.open_bid_qty != 0 || self.open_ask_qty != 0),
    {
        self.net_position != 0 || self.open_bid_qty != 0 || self.open_ask_qty != 0
    }

    /// Worst-case signed position on one side: the position if every open
    /// order on that side fills.
    pub open spec fn spec_worst_case_direction(self, side: OrderSide) -> int {
        match side {
            OrderSide::Bid => self.net_position + self.open_bid_qty,
            OrderSide::Ask => -(self.net_position as int) + self.open_ask_qty,
        }
    }

    /// Whether the worst-case direction stays within `i64`.
    pub open spec fn spec_wcd_in_range(self, side: OrderSide) -> bool {
        match side {
            OrderSide::Bid => self.open_bid_qty <= i64::MAX
                && self.net_position + self.open_bid_qty <= i64::MAX,
            OrderSide::Ask => self.open_ask_qty <= i64::MAX && self.net_position != i64::MIN && -(
            self.net_position as int) + self.open_ask_qty <= i64::MAX,
        }
    }

    /// Worst-case signed position for `side`.
    pub fn worst_case_direction(&self, side: OrderSide) -> (r: Result<i64, ProgramError>)
        requires
            self.spec_wcd_in_range(side),
        ensures
            r == Ok::<i64, ProgramError>((self.spec_worst_case_direction(side)) as i64),
    {
        match side {
            OrderSide::Bid => Ok(self.net_position + (self.open_bid_qty as i64)),
            OrderSide::Ask => Ok((-self.net_position) + (self.open_ask_qty as i64)),
        }
    }

    /// Worst-case usage after adding `add_qty` on `side`, clamped at zero.
    pub open spec fn spec_wcd_add(self, side: OrderSide, add_qty: u64) -> int {
        spec_max0(self.spec_worst_case_direction(side) + add_qty)
    }

    /// Worst-case usage on `side` after adding `add_qty` more quantity,
    /// clamped to be nonnegative; fails when it leaves `i64`.
    pub fn worst_case_direction_add(&self, side: OrderSide, add_qty: u64) -> (r: Result<
        u64,
        ProgramError,
    >)
        requires
            self.spec_wcd_in_range(side),
        ensures
            match r {
                Ok(v) => add_qty <= i64::MAX && self.spec_worst_case_direction(side) + add_qty
                    <= i64::MAX && v == self.spec_wcd_add(side, add_qty),
                Err(e) => e == ProgramError::ArithmeticOverflow && (add_qty > i64::MAX
                    || self.spec_worst_case_direction(side) + add_qty > i64::MAX),
            },
    {
        let usage = match self.worst_case_direction(side) {
            Ok(v) => v,
            Err(e) => { return Err(e) },
        };
        if add_qty > i64::MAX as u64 {
            return Err(ProgramError::ArithmeticOverflow);
        }
        let add_qty_i64 = add_qty as i64;
        let sum = match usage.checked_add(add_qty_i64) {
            Some(v) => v,
            None => { return Err(ProgramError::ArithmeticOverflow) },
        };
        if sum >= 0 {
            Ok(sum as u64)
        } else {
            Ok(0)
        }
    }

    /// Worst-case position magnitude over both sides, with saturating
    /// intermediate sums.
    pub open spec fn spec_worst_case_position(self) -> int {
        let worst_long = spec_sat_add_i64(self.net_position as int, self.open_bid_qty as int);
        let worst_short = spec_sat_add_i64(-(self.net_position as int), self.open_ask_qty as int);
        if abs(worst_long) >= abs(worst_short) {
            abs(worst_long) as int
        } else {
            abs(worst_short) as int
        }
    }

    /// The larger of the worst-case long and worst-case short magnitudes.
    pub fn worst_case_position(&self) -> (r: u64)
        requires
            self.open_bid_qty <= i64::MAX,
            self.open_ask_qty <= i64::MAX,
            self.net_position != i64::MIN,
        ensures
            r == self.spec_worst_case_position(),
    {
        let worst_long = crate::market::sat_add_i64(self.net_position, self.open_bid_qty as i64);
        let worst_short = crate::market::sat_add_i64(-self.net_position, self.open_ask_qty as i64);
        let a = abs_i64(worst_long);
        let b = abs_i64(worst_short);
        if a >= b {
            a
        } else {
            b
        }
    }

    /// Required margin for `usage` units, using the market's mark price
    /// and rate.
    pub fn calc_required_margin_mkt(&self, market_state: &MarketStateV1, usage: u64) -> (r: Result<
        u64,
        ProgramError,
    >)
        ensures
            ({
                let eff = spec_eff_im_bps(market_state.im_bps, self.user_set_im_bps);
                match r {
                    Ok(v) => spec_required_margin_ok(
                        usage as int,
                        market_state.last_mark_price,
                        eff,
                    ) && v == spec_required_margin(usage as int, market_state.last_mark_price, eff),
                    Err(e) => e == ProgramError::ArithmeticOverflow && !spec_required_margin_ok(
                        usage as int,
                        market_state.last_mark_price,
                        eff,
                    ),
                }
            }),
    {
        self.calc_required_margin(market_state.last_mark_price, market_state.im_bps, usage)
    }

    /// Required margin for `usage` units at `last_mark_price`, using the
    /// market rate tightened by the user's own setting.
    pub fn calc_required_margin(&self, last_mark_price: u64, mkt_im_bps: u16, usage: u64) -> (r:
        Result<u64, ProgramError>)
        ensures
            ({
                let eff = spec_eff_im_bps(mkt_im_bps, self.user_set_im_bps);
                match r {
                    Ok(v) => spec_required_margin_ok(usage as int, last_mark_price, eff) && v
                        == spec_required_margin(usage as int, last_mark_price, eff),
                    Err(e) => e == ProgramError::ArithmeticOverflow && !spec_required_margin_ok(
                        usage as int,
                        last_mark_price,
                        eff,
                    ),
                }
            }),
    {
        let effective_im_bps: u16 = if mkt_im_bps >= self.user_set_im_bps {
            mkt_im_bps
        } else {
            self.user_set_im_bps
        };
        let notional_value = match crate::math::mul_qty_px_to_notional(usage, last_mark_price) {
            Ok(v) => v,
            Err(e) => { return Err(e) },
        };
        match notional_value.checked_mul(effective_im_bps as u64) {
            Some(scaled) => Ok(scaled / 10_000),
            None => Err(ProgramError::ArithmeticOverflow),
        }
    }

    /// Equity at `mark`: committed collateral plus unrealized PnL,
    /// saturating at zero when the loss exceeds the committed amount.
    pub open spec fn spec_equity(self, mark: u64) -> int {
        let u = spec_unrealized_pnl(self.net_position as int, self.avg_entry_price, mark);
        if self.committed + u >= 0 {
            self.committed + u
        } else {
            0
        }
    }

    /// Whether the equity computation stays within its machine ranges.
    pub open spec fn spec_equity_ok(self, mark: u64) -> bool {
        let u = spec_unrealized_pnl(self.net_position as int, self.avg_entry_price, mark);
        &&& i64::MIN <= u <= i64::MAX
        &&& (u >= 0 ==> self.committed + u <= u64::MAX)
    }

    /// Equity of this bucket at `last_mark_price`.
    pub fn calc_equity(&self, last_mark_price: u64) -> (r: Result<u64, ProgramError>)
        requires
            self.net_position != i64::MIN,
        ensures
            match r {
                Ok(v) => self.spec_equity_ok(last_mark_price) && v == self.spec_equity(
                    last_mark_price,
                ),
                Err(e) => e == ProgramError::ArithmeticOverflow && !self.spec_equity_ok(
                    last_mark_price,
                ),
            },
    {
        let unrealized_pnl: i64 = if self.net_position != 0 {
            match crate::position::calculate_realized_pnl(
                self.net_position > 0,
                abs_i64(self.net_position),
                self.avg_entry_price,
                last_mark_price,
            ) {
                Ok(v) => v,
                Err(e) => { return Err(e) },
            }
        } else {
            0
        };
        if unrealized_pnl >= 0 {
            match self.committed.checked_add(unrealized_pnl as u64) {
                Some(equity) => Ok(equity),
                None => Err(ProgramError::ArithmeticOverflow),
            }
        } else {
            let loss: u64 = (-(unrealized_pnl as i128)) as u64;
            Ok(self.committed.saturating_sub(loss))
        }
    }

    /// Add `qty` to the open-order reservation on `side`.
    pub fn update_open_order_qty(&mut self, side: OrderSide, qty: u64) -> (r: Result<
        (),
        ProgramError,
    >)
        ensures
            match r {
                Ok(_) => match side {
                    OrderSide::Bid => old(self).open_bid_qty + qty <= u64::MAX && *final(self) == (
                    MarginBucket { open_bid_qty: (old(self).open_bid_qty + qty) as u64, ..*old(self) }),
                    OrderSide::Ask => old(self).open_ask_qty + qty <= u64::MAX && *final(self) == (
                    MarginBucket { open_ask_qty: (old(self).open_ask_qty + qty) as u64, ..*old(self) }),
                },
                Err(e) => e == ProgramError::ArithmeticOverflow && *final(self) == *old(self)
                    && match side {
                    OrderSide::Bid => old(self).open_bid_qty + qty > u64::MAX,
                    OrderSide::Ask => old(self).open_ask_qty + qty > u64::MAX,
                },
            },
    {
        match side {
            OrderSide::Bid => {
                match self.open_bid_qty.checked_add(qty) {
                    Some(v) => {
                        self.open_bid_qty = v;
                        Ok(())
                    },
                    None => Err(ProgramError::ArithmeticOverflow),
                }
            },
            OrderSide::Ask => {
                match self.open_ask_qty.checked_add(qty) {
                    Some(v) => {
                        self.open_ask_qty = v;
                        Ok(())
                    },
                    None => Err(ProgramError::ArithmeticOverflow),
                }
            },
        }
    }

    /// The outcome of validating and reserving `qty` more units on `side`:
    /// the updated bucket, or the first failing check's error.
    pub open spec fn spec_validate_open_order(
        self,
        market: MarketStateV1,
        side: OrderSide,
        qty: u64,
    ) -> Result<MarginBucket, ProgramError> {
        let wcd = self.spec_worst_case_direction(side);
        let eff = spec_eff_im_bps(market.im_bps, self.user_set_im_bps);
        let worst = spec_max0(wcd + qty);
        if qty > i64::MAX || wcd + qty > i64::MAX {
            Err(ProgramError::ArithmeticOverflow)
        } else if market.max_user_oi_size > 0 && worst > market.max_user_oi_size {
            Err(ProgramError::InvalidArgument)
        } else if !spec_required_margin_ok(worst, market.last_mark_price, eff) {
            Err(ProgramError::ArithmeticOverflow)
        } else if !self.spec_equity_ok(market.last_mark_price) {
            Err(ProgramError::ArithmeticOverflow)
        } else if self.spec_equity(market.last_mark_price) < spec_required_margin(
            worst,
            market.last_mark_price,
            eff,
        ) {
            Err(ProgramError::InsufficientFunds)
        } else {
            match side {
                OrderSide::Bid => if self.open_bid_qty + qty > u64::MAX {
                    Err(ProgramError::ArithmeticOverflow)
                } else {
                    Ok(MarginBucket { open_bid_qty: (self.open_bid_qty + qty) as u64, ..self })
                },
                OrderSide::Ask => if self.open_ask_qty + qty > u64::MAX {
                    Err(ProgramError::ArithmeticOverflow)
                } else {
                    Ok(MarginBucket { open_ask_qty: (self.open_ask_qty + qty) as u64, ..self })
                },
            }
        }
    }

    /// Reserve `qty` more units on `side` after checking the per-user
    /// open-interest cap and initial-margin sufficiency at the mark price.
    pub fn validate_and_update_open_order_qty(
        &mut self,
        market_state: &MarketStateV1,
        side: OrderSide,
        qty: u64,
    ) -> (r: Result<(), ProgramError>)
        requires
            old(self).spec_wcd_in_range(side),
            old(self).net_position != i64::MIN,
        ensures
            match r {
                Ok(_) => old(self).spec_validate_open_order(*market_state, side, qty)
                    == Ok::<MarginBucket, ProgramError>(*final(self)),
                Err(e) => old(self).spec_validate_open_order(*market_state, side, qty)
                    == Err::<MarginBucket, ProgramError>(e) && *final(self) == *old(self),
            },
    {
        let worst_case_usage = match self.worst_case_direction_add(side, qty) {
            Ok(v) => v,
            Err(e) => { return Err(e) },
        };
        if market_state.max_user_oi_size > 0 && worst_case_usage > market_state.max_user_oi_size {
            return Err(ProgramError::InvalidArgument);
        }
        let required_margin = match self.calc_required_margin_mkt(market_state, worst_case_usage) {
            Ok(v) => v,
            Err(e) => { return Err(e) },
        };
        let equity = match self.calc_equity(market_state.last_mark_price) {
            Ok(v) => v,
            Err(e) => { return Err(e) },
        };
        if equity < required_margin {
            return Err(ProgramError::InsufficientFunds);
        }
        self.update_open_order_qty(side, qty)
    }

    /// The amount that can be uncommitted from this bucket: equity beyond
    /// the margin required for the worst-case position, never negative.
    pub open spec fn spec_uncommittable(self, mark: u64, im_bps: u16) -> int {
        let required = spec_required_margin(self.spec_worst_case_position(), mark, im_bps as int);
        let e = self.spec_equity(mark);
        if e >= required {
            e - required
        } else {
            0
        }
    }

    /// How much committed collateral could be withdrawn at `last_mark_price`
    /// while keeping the worst-case position fully margined.
    pub fn calculate_uncommittable_amount(&self, last_mark_price: u64, im_bps: u16) -> (r: Result<
        u64,
        ProgramError,
    >)
        requires
            self.open_bid_qty <= i64::MAX,
            self.open_ask_qty <= i64::MAX,
            self.net_position != i64::MIN,
        ensures
            match r {
                Ok(v) => {
                    &&& spec_required_margin_ok(
                        self.spec_worst_case_position(),
                        last_mark_price,
                        im_bps as int,
                    )
                    &&& self.spec_equity_ok(last_mark_price)
                    &&& v == self.spec_uncommittable(last_mark_price, im_bps)
                },
                Err(e) => e == ProgramError::ArithmeticOverflow && (!spec_required_margin_ok(
                    self.spec_worst_case_position(),
                    last_mark_price,
                    im_bps as int,
                ) || !self.spec_equity_ok(last_mark_price)),
            },
    {
        let worst_case_pos = self.worst_case_position();
        let notional = match crate::math::mul_qty_px_to_notional(worst_case_pos, last_mark_price) {
            Ok(v) => v,
            Err(e) => { return Err(e) },
        };
        let required_collateral = match notional.checked_mul(im_bps as u64) {
            Some(scaled) => scaled / 10_000,
            None => { return Err(ProgramError::ArithmeticOverflow) },
        };
        let equity = match self.calc_equity(last_mark_price) {
            Ok(v) => v,
            Err(e) => { return Err(e) },
        };
        Ok(equity.saturating_sub(required_collateral))
    }

    /// Room left to add quantity on `side` without breaching the initial
    /// margin: the position capacity that current equity supports, minus
    /// the worst-case usage already taken.
    pub fn qty_left_for_margin(&self, market_state: &MarketStateV1, side: OrderSide) -> (r: Result<
        u64,
        ProgramError,
    >)
        requires
            self.spec_wcd_in_range(side),
            self.net_position != i64::MIN,
            spec_eff_im_bps(market_state.im_bps, self.user_set_im_bps) > 0,
            market_state.last_mark_price > 0,
        ensures
            ({
                let eff = spec_eff_im_bps(market_state.im_bps, self.user_set_im_bps);
                let capacity = self.spec_equity(market_state.last_mark_price) * 10_000
                    * 100_000_000 / (eff * market_state.last_mark_price);
                match r {
                    Ok(v) => {
                        &&& self.spec_equity_ok(market_state.last_mark_price)
                        &&& capacity <= i64::MAX
                        &&& v == spec_max0(capacity - self.spec_worst_case_direction(side))
                    },
                    Err(e) => e == ProgramError::ArithmeticOverflow && (!self.spec_equity_ok(
                        market_state.last_mark_price,
                    ) || capacity > i64::MAX),
                }
            }),
    {
        let worst_case_usage = match self.worst_case_direction(side) {
            Ok(v) => v,
            Err(e) => { return Err(e) },
        };
        let effective_im_bps: u16 = if market_state.im_bps >= self.user_set_im_bps {
            market_state.im_bps
        } else {
            self.user_set_im_bps
        };
        let equity = match self.calc_equity(market_state.last_mark_price) {
            Ok(v) => v,
            Err(e) => { return Err(e) },
        };
        proof {
            assert(0 < (effective_im_bps as int) * (market_state.last_mark_price as int)
                <= u128::MAX) by (nonlinear_arith)
                requires
                    1 <= effective_im_bps <= u16::MAX && 1 <= market_state.last_mark_price
                        <= u64::MAX,
            ;
        }
        let capacity128: u128 = (equity as u128) * 10_000u128 * 100_000_000u128 / ((effective_im_bps
            as u128) * (market_state.last_mark_price as u128));
        if capacity128 > i64::MAX as u128 {
            return Err(ProgramError::ArithmeticOverflow);
        }
        let capacity = capacity128 as i64;
        let d: i128 = (capacity as i128) - (worst_case_usage as i128);
        if d >= 0 {
            Ok(d as u64)
        } else {
            Ok(0)
        }
    }
}

/// Subtraction of unsigned values, saturating at zero.
pub open spec fn spec_sat_sub_u64(a: int, b: int) -> int {
    if a >= b {
        a - b
    } else {
        0
    }
}

/// A bucket after a cancellation releases `unfilled` units on `side`,
/// saturating the reservation at zero.
pub open spec fn spec_bucket_after_cancel(b: MarginBucket, side: OrderSide, unfilled: u64) -> MarginBucket {
    match side {
        OrderSide::Bid => MarginBucket {
            open_bid_qty: spec_sat_sub_u64(b.open_bid_qty as int, unfilled as int) as u64,
            ..b
        },
        OrderSide::Ask => MarginBucket {
            open_ask_qty: spec_sat_sub_u64(b.open_ask_qty as int, unfilled as int) as u64,
            ..b
        },
    }
}

/// The first index of a balance for `mint`, or the length when absent.
pub open spec fn spec_balance_idx(s: Seq<TokenBalance>, mint: Pubkey) -> int
    decreases s.len(),
{
    if s.len() == 0 {
        0
    } else if s[0].mint == mint {
        0
    } else {
        1 + spec_balance_idx(s.drop_first(), mint)
    }
}

/// `spec_balance_idx` lies within `0..=len`, hits a matching balance when
/// within range, and nothing before it matches.
pub proof fn lemma_balance_idx(s: Seq<TokenBalance>, mint: Pubkey)
    ensures
        0 <= spec_balance_idx(s, mint) <= s.len(),
        spec_balance_idx(s, mint) < s.len() ==> s[spec_balance_idx(s, mint)].mint == mint,
        forall|j: int| 0 <= j < spec_balance_idx(s, mint) ==> (#[trigger] s[j]).mint != mint,
    decreases s.len(),
{
    if s.len() != 0 && s[0].mint != mint {
        lemma_balance_idx(s.drop_first(), mint);
        let f1 = spec_balance_idx(s.drop_first(), mint);
        assert forall|j: int| 0 <= j < spec_balance_idx(s, mint) implies (#[trigger] s[j]).mint
            != mint by {
            if j > 0 {
                assert(s.drop_first()[j - 1] == s[j]);
            }
        }
        if spec_balance_idx(s, mint) < s.len() {
            assert(s.drop_first()[f1] == s[1 + f1]);
        }
    }
}

/// Any index satisfying the first-match characterization is
/// `spec_balance_idx`.
pub proof fn lemma_balance_idx_unique(s: Seq<TokenBalance>, mint: Pubkey, i: int)
    requires
        0 <= i <= s.len(),
        i < s.len() ==> s[i].mint == mint,
        forall|j: int| 0 <= j < i ==> (#[trigger] s[j]).mint != mint,
    ensures
        i == spec_balance_idx(s, mint),
{
    lemma_balance_idx(s, mint);
}

/// Whether a bucket belongs to `scope` and `mint`.
pub open spec fn spec_bucket_matches(b: MarginBucket, scope: MarginScope, mint: Pubkey) -> bool {
    b.scope == scope && b.mint == mint
}

/// The first index of a bucket for `scope` and `mint`, or the length when
/// absent.
pub open spec fn spec_bucket_idx(s: Seq<MarginBucket>, scope: MarginScope, mint: Pubkey) -> int
    decreases s.len(),
{
    if s.len() == 0 {
        0
    } else if spec_bucket_matches(s[0], scope, mint) {
        0
    } else {
        1 + spec_bucket_idx(s.drop_first(), scope, mint)
    }
}

/// `spec_bucket_idx` lies within `0..=len`, hits a matching bucket when
/// within range, and nothing before it matches.
pub proof fn lemma_bucket_idx(s: Seq<MarginBucket>, scope: MarginScope, mint: Pubkey)
    ensures
        0 <= spec_bucket_idx(s, scope, mint) <= s.len(),
        spec_bucket_idx(s, scope, mint) < s.len() ==> spec_bucket_matches(
            s[spec_bucket_idx(s, scope, mint)],
            scope,
            mint,
        ),
        forall|j: int| 0 <= j < spec_bucket_idx(s, scope, mint) ==> !spec_bucket_matches(
            #[trigger] s[j],
            scope,
            mint,
        ),
    decreases s.len(),
{
    if s.len() != 0 && !spec_bucket_matches(s[0], scope, mint) {
        lemma_bucket_idx(s.drop_first(), scope, mint);
        let f1 = spec_bucket_idx(s.drop_first(), scope, mint);
        assert forall|j: int| 0 <= j < spec_bucket_idx(s, scope, mint) implies !spec_bucket_matches(
            #[trigger] s[j],
            scope,
            mint,
        ) by {
            if j > 0 {
                assert(s.drop_first()[j - 1] == s[j]);
            }
        }
        if spec_bucket_idx(s, scope, mint) < s.len() {
            assert(s.drop_first()[f1] == s[1 + f1]);
        }
    }
}

/// Any index satisfying the first-match characterization is
/// `spec_bucket_idx`.
pub proof fn lemma_bucket_idx_unique(s: Seq<MarginBucket>, scope: MarginScope, mint: Pubkey, i: int)
    requires
        0 <= i <= s.len(),
        i < s.len() ==> spec_bucket_matches(s[i], scope, mint),
        forall|j: int| 0 <= j < i ==> !spec_bucket_matches(#[trigger] s[j], scope, mint),
    ensures
        i == spec_bucket_idx(s, scope, mint),
{
    lemma_bucket_idx(s, scope, mint);
}

/// The first index of a bucket scoped to `market_id` under any mint, or
/// the length when absent.
pub open spec fn spec_market_bucket_idx(s: Seq<MarginBucket>, market_id: u64) -> int
    decreases s.len(),
{
    if s.len() == 0 {
        0
    } else if s[0].scope == MarginScope::MarketIsolated(market_id) {
        0
    } else {
        1 + spec_market_bucket_idx(s.drop_first(), market_id)
    }
}

/// `spec_market_bucket_idx` lies within `0..=len`, hits a bucket of the
/// market's scope when within range, and nothing before it matches.
pub proof fn lemma_market_bucket_idx(s: Seq<MarginBucket>, market_id: u64)
    ensures
        0 <= spec_market_bucket_idx(s, market_id) <= s.len(),
        spec_market_bucket_idx(s, market_id) < s.len() ==> s[spec_market_bucket_idx(
            s,
            market_id,
        )].scope == MarginScope::MarketIsolated(market_id),
        forall|j: int| 0 <= j < spec_market_bucket_idx(s, market_id) ==> (#[trigger] s[j]).scope
            != MarginScope::MarketIsolated(market_id),
    decreases s.len(),
{
    if s.len() != 0 && s[0].scope != MarginScope::MarketIsolated(market_id) {
        lemma_market_bucket_idx(s.drop_first(), market_id);
        let f1 = spec_market_bucket_idx(s.drop_first(), market_id);
        assert forall|j: int| 0 <= j < spec_market_bucket_idx(s, market_id) implies (
        #[trigger] s[j]).scope != MarginScope::MarketIsolated(market_id) by {
            if j > 0 {
                assert(s.drop_first()[j - 1] == s[j]);
            }
        }
        if spec_market_bucket_idx(s, market_id) < s.len() {
            assert(s.drop_first()[f1] == s[1 + f1]);
        }
    }
}

/// Any index satisfying the first-match characterization is
/// `spec_market_bucket_idx`.
pub proof fn lemma_market_bucket_idx_unique(s: Seq<MarginBucket>, market_id: u64, i: int)
    requires
        0 <= i <= s.len(),
        i < s.len() ==> s[i].scope == MarginScope::MarketIsolated(market_id),
        forall|j: int| 0 <= j < i ==> (#[trigger] s[j]).scope != MarginScope::MarketIsolated(
            market_id,
        ),
    ensures
        i == spec_market_bucket_idx(s, market_id),
{
    lemma_market_bucket_idx(s, market_id);
}

/// Sum of the free amounts held for `mint`.
pub open spec fn spec_free_sum(s: Seq<TokenBalance>, mint: Pubkey) -> int
    decreases s.len(),
{
    if s.len() == 0 {
        0
    } else {
        (if s[0].mint == mint {
            s[0].amount as int
        } else {
            0
        }) + spec_free_sum(s.drop_first(), mint)
    }
}

/// Sum of the committed amounts held for `mint` across buckets.
pub open spec fn spec_committed_sum(s: Seq<MarginBucket>, mint: Pubkey) -> int
    decreases s.len(),
{
    if s.len() == 0 {
        0
    } else {
        (if s[0].mint == mint {
            s[0].committed as int
        } else {
            0
        }) + spec_committed_sum(s.drop_first(), mint)
    }
}

/// A free-collateral sum is nonnegative.
pub proof fn lemma_free_sum_nonneg(s: Seq<TokenBalance>, mint: Pubkey)
    ensures
        spec_free_sum(s, mint) >= 0,
    decreases s.len(),
{
    if s.len() != 0 {
        lemma_free_sum_nonneg(s.drop_first(), mint);
    }
}

/// A committed-collateral sum is nonnegative.
pub proof fn lemma_committed_sum_nonneg(s: Seq<MarginBucket>, mint: Pubkey)
    ensures
        spec_committed_sum(s, mint) >= 0,
    decreases s.len(),
{
    if s.len() != 0 {
        lemma_committed_sum_nonneg(s.drop_first(), mint);
    }
}

/// Splitting a free-collateral sum at index `i`.
proof fn lemma_free_sum_split(s: Seq<TokenBalance>, mint: Pubkey, i: int)
    requires
        0 <= i < s.len(),
    ensures
        spec_free_sum(s.skip(i), mint) == (if s[i].mint == mint {
            s[i].amount as int
        } else {
            0
        }) + spec_free_sum(s.skip(i + 1), mint),
{
    assert(s.skip(i).len() == s.len() - i);
    assert(s.skip(i)[0] == s[i]);
    assert(s.skip(i).drop_first() =~= s.skip(i + 1));
}

/// Splitting a committed-collateral sum at index `i`.
proof fn lemma_committed_sum_split(s: Seq<MarginBucket>, mint: Pubkey, i: int)
    requires
        0 <= i < s.len(),
    ensures
        spec_committed_sum(s.skip(i), mint) == (if s[i].mint == mint {
            s[i].committed as int
        } else {
            0
        }) + spec_committed_sum(s.skip(i + 1), mint),
{
    assert(s.skip(i).len() == s.len() - i);
    assert(s.skip(i)[0] == s[i]);
    assert(s.skip(i).drop_first() =~= s.skip(i + 1));
}

/// Cross-margin account: a user's free collateral per mint and margin
/// buckets per scope and mint.
#[derive(Debug, Clone)]
pub struct CrossMarginAccountV1 {
    pub version: u8,
    pub _pad: [u8; 128],
    /// The owning user.
    pub user: Pubkey,
    /// Free collateral by mint, at most one entry per mint.
    pub balances: Vec<TokenBalance>,
    /// Margin buckets, at most one entry per scope and mint.
    pub buckets: Vec<MarginBucket>,
    pub _pad2: [u8; 8],
}

impl CrossMarginAccountV1 {
    /// Whether everything besides the balances and buckets is unchanged
    /// between `a` and `b`.
    pub open spec fn spec_same_frame(a: CrossMarginAccountV1, b: CrossMarginAccountV1) -> bool {
        a.version == b.version && a._pad == b._pad && a.user == b.user && a._pad2 == b._pad2
    }

    /// The first index of a balance for `mint`.
    fn balance_position(&self, mint: &Pubkey) -> (r: usize)
        ensures
            r == spec_balance_idx(self.balances@, *mint),
    {
        let n = self.balances.len();
        let mut i: usize = 0;
        while i < n
            invariant
                n == self.balances@.len(),
                0 <= i <= n,
                forall|j: int| 0 <= j < i ==> (#[trigger] self.balances@[j]).mint != *mint,
            decreases n - i,
        {
            if self.balances[i].mint == *mint {
                proof {
                    lemma_balance_idx_unique(self.balances@, *mint, i as int);
                }
                return i;
            }
            i = i + 1;
        }
        proof {
            lemma_balance_idx_unique(self.balances@, *mint, n as int);
        }
        n
    }

    /// The first index of a bucket for `scope` and `mint`.
    fn bucket_position(&self, scope: &MarginScope, mint: &Pubkey) -> (r: usize)
        ensures
            r == spec_bucket_idx(self.buckets@, *scope, *mint),
    {
        let n = self.buckets.len();
        let mut i: usize = 0;
        while i < n
            invariant
                n == self.buckets@.len(),
                0 <= i <= n,
                forall|j: int| 0 <= j < i ==> !spec_bucket_matches(
                    #[trigger] self.buckets@[j],
                    *scope,
                    *mint,
                ),
            decreases n - i,
        {
            let matches_scope = match (&self.buckets[i].scope, scope) {
                (MarginScope::MarketIsolated(a), MarginScope::MarketIsolated(b)) => *a == *b,
            };
            if matches_scope && self.buckets[i].mint == *mint {
                proof {
                    lemma_bucket_idx_unique(self.buckets@, *scope, *mint, i as int);
                }
                return i;
            }
            i = i + 1;
        }
        proof {
            lemma_bucket_idx_unique(self.buckets@, *scope, *mint, n as int);
        }
        n
    }

    /// The first index of a bucket scoped to `market_id`, under any mint.
    fn market_bucket_position(&self, market_id: u64) -> (r: usize)
        ensures
            r == spec_market_bucket_idx(self.buckets@, market_id),
    {
        let n = self.buckets.len();
        let mut i: usize = 0;
        while i < n
            invariant
                n == self.buckets@.len(),
                0 <= i <= n,
                forall|j: int| 0 <= j < i ==> (#[trigger] self.buckets@[j]).scope
                    != MarginScope::MarketIsolated(market_id),
            decreases n - i,
        {
            let matches_scope = match &self.buckets[i].scope {
                MarginScope::MarketIsolated(a) => *a == market_id,
            };
            if matches_scope {
                proof {
                    lemma_market_bucket_idx_unique(self.buckets@, market_id, i as int);
                }
                return i;
            }
            i = i + 1;
        }
        proof {
            lemma_market_bucket_idx_unique(self.buckets@, market_id, n as int);
        }
        n
    }

    /// Locate (or lazily create) the free-collateral balance for `mint`.
    pub fn balance_for_mut(&mut self, mint: &Pubkey) -> (r: &mut TokenBalance)
        ensures
            CrossMarginAccountV1::spec_same_frame(*old(self), *final(self)),
            final(self).buckets@ == old(self).buckets@,
            ({
                let i = spec_balance_idx(old(self).balances@, *mint);
                if i < old(self).balances@.len() {
                    &&& *r == old(self).balances@[i]
                    &&& final(self).balances@ == old(self).balances@.update(i, *final(r))
                } else {
                    &&& r.mint == *mint
                    &&& r.amount == 0
                    &&& is_zero_bytes(r._pad@)
                    &&& final(self).balances@ == old(self).balances@.push(*final(r))
                }
            }),
    {
        proof {
            lemma_balance_idx(self.balances@, *mint);
        }
        let pos = self.balance_position(mint);
        if pos < self.balances.len() {
            vstd::std_specs::vec::vec_index_mut(&mut self.balances, pos)
        } else {
            self.balances.push(TokenBalance { mint: *mint, amount: 0, _pad: [0u8; 16] });
            let last = self.balances.len() - 1;
            vstd::std_specs::vec::vec_index_mut(&mut self.balances, last)
        }
    }

    /// Locate (or lazily create) the margin bucket for `scope` and `mint`.
    pub fn bucket_for_mut(&mut self, scope: &MarginScope, mint: &Pubkey) -> (r: &mut MarginBucket)
        ensures
            CrossMarginAccountV1::spec_same_frame(*old(self), *final(self)),
            final(self).balances@ == old(self).balances@,
            ({
                let i = spec_bucket_idx(old(self).buckets@, *scope, *mint);
                if i < old(self).buckets@.len() {
                    &&& *r == old(self).buckets@[i]
                    &&& final(self).buckets@ == old(self).buckets@.update(i, *final(r))
                } else {
                    &&& r.spec_is_fresh(*scope, *mint)
                    &&& final(self).buckets@ == old(self).buckets@.push(*final(r))
                }
            }),
    {
        proof {
            lemma_bucket_idx(self.buckets@, *scope, *mint);
        }
        let pos = self.bucket_position(scope, mint);
        if pos < self.buckets.len() {
            vstd::std_specs::vec::vec_index_mut(&mut self.buckets, pos)
        } else {
            self.buckets.push(MarginBucket::new(*scope, *mint));
            let last = self.buckets.len() - 1;
            vstd::std_specs::vec::vec_index_mut(&mut self.buckets, last)
        }
    }

    /// A read-only view of the bucket for `scope` and `mint`, if present.
    pub fn bucket_for_view(&self, scope: &MarginScope, mint: &Pubkey) -> (r: Option<&MarginBucket>)
        ensures
            ({
                let i = spec_bucket_idx(self.buckets@, *scope, *mint);
                match r {
                    Some(b) => i < self.buckets@.len() && *b == self.buckets@[i],
                    None => i == self.buckets@.len(),
                }
            }),
    {
        proof {
            lemma_bucket_idx(self.buckets@, *scope, *mint);
        }
        let pos = self.bucket_position(scope, mint);
        if pos < self.buckets.len() {
            Some(&self.buckets[pos])
        } else {
            None
        }
    }

    /// Release `unfilled_qty` units of reservation on `side` in the bucket
    /// scoped to `market_id`; cancels never touch the net position.
    pub fn update_collateral_on_cancel(
        &mut self,
        market_id: u64,
        side: &OrderSide,
        unfilled_qty: u64,
    ) -> (r: Result<(), &'static str>)
        ensures
            ({
                let i = spec_market_bucket_idx(old(self).buckets@, market_id);
                match r {
                    Ok(_) => {
                        &&& i < old(self).buckets@.len()
                        &&& CrossMarginAccountV1::spec_same_frame(*old(self), *final(self))
                        &&& final(self).balances@ == old(self).balances@
                        &&& final(self).buckets@ == old(self).buckets@.update(
                            i,
                            spec_bucket_after_cancel(old(self).buckets@[i], *side, unfilled_qty),
                        )
                    },
                    Err(m) => {
                        &&& i == old(self).buckets@.len()
                        &&& m == "Market bucket not found"
                        &&& *final(self) == *old(self)
                    },
                }
            }),
    {
        proof {
            lemma_market_bucket_idx(self.buckets@, market_id);
        }
        let pos = self.market_bucket_position(market_id);
        if pos >= self.buckets.len() {
            return Err("Market bucket not found");
        }
        let mut bucket = self.buckets[pos];
        match side {
            OrderSide::Bid => {
                bucket.open_bid_qty = bucket.open_bid_qty.saturating_sub(unfilled_qty);
            },
            OrderSide::Ask => {
                bucket.open_ask_qty = bucket.open_ask_qty.saturating_sub(unfilled_qty);
            },
        }
        *vstd::std_specs::vec::vec_index_mut(&mut self.buckets, pos) = bucket;
        proof {
            assert(final(self).buckets@ =~= old(self).buckets@.update(
                spec_market_bucket_idx(old(self).buckets@, market_id),
                spec_bucket_after_cancel(
                    old(self).buckets@[spec_market_bucket_idx(old(self).buckets@, market_id)],
                    *side,
                    unfilled_qty,
                ),
            ));
        }
        Ok(())
    }

    /// Aggregate free plus committed collateral for `mint`, saturating in
    /// `u64`.
    pub fn total_collateral(&self, mint: &Pubkey) -> (r: u64)
        requires
            spec_free_sum(self.balances@, *mint) <= u64::MAX,
            spec_committed_sum(self.buckets@, *mint) <= u64::MAX,
        ensures
            ({
                let total = spec_free_sum(self.balances@, *mint) + spec_committed_sum(
                    self.buckets@,
                    *mint,
                );
                r == if total <= u64::MAX {
                    total
                } else {
                    u64::MAX as int
                }
            }),
    {
        let free_sum = self.free_sum_for(mint);
        let committed_sum = self.committed_sum_for(mint);
        free_sum.saturating_add(committed_sum)
    }

    /// Free collateral available for new commitments for `mint`.
    pub fn uncommitted_collateral(&self, mint: &Pubkey) -> (r: u64)
        requires
            spec_free_sum(self.balances@, *mint) <= u64::MAX,
        ensures
            r == spec_free_sum(self.balances@, *mint),
    {
        self.free_sum_for(mint)
    }

    /// Sum of the free balances held for `mint`.
    fn free_sum_for(&self, mint: &Pubkey) -> (r: u64)
        requires
            spec_free_sum(self.balances@, *mint) <= u64::MAX,
        ensures
            r == spec_free_sum(self.balances@, *mint),
    {
        let n = self.balances.len();
        let mut acc: u64 = 0;
        let mut i: usize = 0;
        proof {
            assert(self.balances@.skip(0) =~= self.balances@);
        }
        while i < n
            invariant
                n == self.balances@.len(),
                0 <= i <= n,
                spec_free_sum(self.balances@, *mint) <= u64::MAX,
                acc + spec_free_sum(self.balances@.skip(i as int), *mint) == spec_free_sum(
                    self.balances@,
                    *mint,
                ),
            decreases n - i,
        {
            proof {
                lemma_free_sum_split(self.balances@, *mint, i as int);
                lemma_free_sum_nonneg(self.balances@.skip(i as int + 1), *mint);
                lemma_free_sum_nonneg(self.balances@.skip(i as int), *mint);
            }
            if self.balances[i].mint == *mint {
                acc = acc + self.balances[i].amount;
            }
            i = i + 1;
        }
        proof {
            assert(self.balances@.skip(n as int).len() == 0);
        }
        acc
    }

    /// Sum of the committed amounts held for `mint` across buckets.
    fn committed_sum_for(&self, mint: &Pubkey) -> (r: u64)
        requires
            spec_committed_sum(self.buckets@, *mint) <= u64::MAX,
        ensures
            r == spec_committed_sum(self.buckets@, *mint),
    {
        let n = self.buckets.len();
        let mut acc: u64 = 0;
        let mut i: usize = 0;
        proof {
            assert(self.buckets@.skip(0) =~= self.buckets@);
        }
        while i < n
            invariant
                n == self.buckets@.len(),
                0 <= i <= n,
                spec_committed_sum(self.buckets@, *mint) <= u64::MAX,
                acc + spec_committed_sum(self.buckets@.skip(i as int), *mint) == spec_committed_sum(
                    self.buckets@,
                    *mint,
                ),
            decreases n - i,
        {
            proof {
                lemma_committed_sum_split(self.buckets@, *mint, i as int);
                lemma_committed_sum_nonneg(self.buckets@.skip(i as int + 1), *mint);
                lemma_committed_sum_nonneg(self.buckets@.skip(i as int), *mint);
            }
            if self.buckets[i].mint == *mint {
                acc = acc + self.buckets[i].committed;
            }
            i = i + 1;
        }
        proof {
            assert(self.buckets@.skip(n as int).len() == 0);
        }
        acc
    }

    /// Process a fill against the bucket for `market_id` and `mint`: run
    /// the position algebra, release the filled side's reservation, and
    /// bank the realized PnL into committed collateral, clamping committed
    /// at zero when a loss exceeds it.
    pub fn process_fill(
        &mut self,
        market_id: u64,
        side: OrderSide,
        qty: u64,
        price: u64,
        mint: &Pubkey,
    ) -> (r: Result<CmaFillResult, ProgramError>)
        ensures
            ({
                let i = spec_bucket_idx(
                    old(self).buckets@,
                    MarginScope::MarketIsolated(market_id),
                    *mint,
                );
                let len = old(self).buckets@.len();
                if i >= len {
                    r == Err::<CmaFillResult, ProgramError>(ProgramError::InvalidAccountData)
                        && *final(self) == *old(self)
                } else {
                    let b = old(self).buckets@[i];
                    let f = crate::position::Fill { side, qty, price };
                    if !crate::position::spec_fill_ok(b.net_position, b.avg_entry_price, f) {
                        r == Err::<CmaFillResult, ProgramError>(ProgramError::ArithmeticOverflow)
                            && *final(self) == *old(self)
                    } else {
                        let fr = crate::position::spec_fill_result(
                            b.net_position,
                            b.avg_entry_price,
                            f,
                        );
                        let b1 = spec_bucket_after_fill(b, side, qty, fr);
                        &&& CrossMarginAccountV1::spec_same_frame(*old(self), *final(self))
                        &&& final(self).balances@ == old(self).balances@
                        &&& if fr.realized_pnl > 0 && b.committed + fr.realized_pnl > u64::MAX {
                            r == Err::<CmaFillResult, ProgramError>(
                                ProgramError::ArithmeticOverflow,
                            ) && final(self).buckets@ == old(self).buckets@.update(i, b1)
                        } else {
                            let b2 = (MarginBucket {
                                committed: spec_committed_after(
                                    b.committed,
                                    fr.realized_pnl,
                                ) as u64,
                                ..b1
                            });
                            r == Ok::<CmaFillResult, ProgramError>(
                                CmaFillResult {
                                    new_net_position: fr.new_net_position,
                                    old_net_position: b.net_position,
                                    realized_pnl_banked: fr.realized_pnl,
                                },
                            ) && final(self).buckets@ == old(self).buckets@.update(i, b2)
                        }
                    }
                }
            }),
    {
        let scope = MarginScope::MarketIsolated(market_id);
        proof {
            lemma_bucket_idx(self.buckets@, scope, *mint);
        }
        let pos = self.bucket_position(&scope, mint);
        if pos >= self.buckets.len() {
            return Err(ProgramError::InvalidAccountData);
        }
        let mut bucket = self.buckets[pos];
        let fill = crate::position::Fill { side, qty, price };
        let fill_result = match crate::position::process_fill(
            bucket.net_position,
            bucket.avg_entry_price,
            &fill,
        ) {
            Ok(v) => v,
            Err(e) => { return Err(e) },
        };
        let old_net_position = bucket.net_position;
        bucket.net_position = fill_result.new_net_position;
        bucket.avg_entry_price = fill_result.new_avg_entry_price;
        match side {
            OrderSide::Bid => {
                bucket.open_bid_qty = bucket.open_bid_qty.saturating_sub(qty);
            },
            OrderSide::Ask => {
                bucket.open_ask_qty = bucket.open_ask_qty.saturating_sub(qty);
            },
        }
        if fill_result.realized_pnl != 0 {
            if fill_result.realized_pnl > 0 {
                match bucket.committed.checked_add(fill_result.realized_pnl as u64) {
                    Some(v) => {
                        bucket.committed = v;
                    },
                    None => {
                        *vstd::std_specs::vec::vec_index_mut(&mut self.buckets, pos) = bucket;
                        return Err(ProgramError::ArithmeticOverflow);
                    },
                }
            } else {
                let loss: u64 = (-(fill_result.realized_pnl as i128)) as u64;
                if bucket.committed < loss {
                    bucket.committed = 0;
                } else {
                    bucket.committed = bucket.committed - loss;
                }
            }
        }
        *vstd::std_specs::vec::vec_index_mut(&mut self.buckets, pos) = bucket;
        Ok(CmaFillResult {
            new_net_position: bucket.net_position,
            old_net_position,
            realized_pnl_banked: fill_result.realized_pnl,
        })
    }

    /// Equity of the bucket for `market_id` and `mint` at `mark_price`.
    pub fn calculate_bucket_equity(&self, market_id: u64, mint: &Pubkey, mark_price: u64) -> (r:
        Result<i64, ProgramError>)
        ensures
            ({
                let i = spec_bucket_idx(self.buckets@, MarginScope::MarketIsolated(market_id), *mint);
                if i >= self.buckets@.len() {
                    r == Err::<i64, ProgramError>(ProgramError::InvalidAccountData)
                } else {
                    let b = self.buckets@[i];
                    let u = spec_unrealized_pnl(b.net_position as int, b.avg_entry_price, mark_price);
                    match r {
                        Ok(v) => v == b.committed + u && b.committed <= i64::MAX,
                        Err(e) => e == ProgramError::ArithmeticOverflow && (b.committed > i64::MAX
                            || !(i64::MIN <= u <= i64::MAX) || !(i64::MIN <= b.committed + u
                            <= i64::MAX)),
                    }
                }
            }),
    {
        let scope = MarginScope::MarketIsolated(market_id);
        proof {
            lemma_bucket_idx(self.buckets@, scope, *mint);
        }
        let pos = self.bucket_position(&scope, mint);
        if pos >= self.buckets.len() {
            return Err(ProgramError::InvalidAccountData);
        }
        let bucket = &self.buckets[pos];
        crate::position::calculate_equity(
            bucket.committed,
            bucket.net_position,
            bucket.avg_entry_price,
            mark_price,
        )
    }

    /// The net position held in the bucket for `market_id` and `mint`, or
    /// zero when no such bucket exists.
    pub fn net_position(&self, market_id: u64, mint: &Pubkey) -> (r: Result<i64, ProgramError>)
        ensures
            ({
                let i = spec_bucket_idx(self.buckets@, MarginScope::MarketIsolated(market_id), *mint);
                r == Ok::<i64, ProgramError>(
                    if i < self.buckets@.len() {
                        self.buckets@[i].net_position
                    } else {
                        0i64
                    },
                )
            }),
    {
        let scope = MarginScope::MarketIsolated(market_id);
        match self.bucket_for_view(&scope, mint) {
            Some(bucket) => Ok(bucket.net_position),
            None => Ok(0),
        }
    }

    /// Validate and reserve collateral for a new order of `qty` on `side`
    /// in `market_id`'s bucket, creating the bucket on first use.  The
    /// liquidation path skips the cap and margin checks and only moves the
    /// reservation.
    pub fn validate_and_update_collateral(
        &mut self,
        market_state: &MarketStateV1,
        market_id: u64,
        side: OrderSide,
        qty: u64,
        is_liquidation: bool,
    ) -> (r: Result<(), ProgramError>)
        requires
            ({
                let i = spec_bucket_idx(
                    old(self).buckets@,
                    MarginScope::MarketIsolated(market_id),
                    market_state.base_token,
                );
                i < old(self).buckets@.len() ==> (old(self).buckets@[i].spec_wcd_in_range(side)
                    && old(self).buckets@[i].net_position != i64::MIN)
            }),
        ensures
            ({
                let i = spec_bucket_idx(
                    old(self).buckets@,
                    MarginScope::MarketIsolated(market_id),
                    market_state.base_token,
                );
                let len = old(self).buckets@.len();
                &&& CrossMarginAccountV1::spec_same_frame(*old(self), *final(self))
                &&& final(self).balances@ == old(self).balances@
                &&& if i < len {
                    let b = old(self).buckets@[i];
                    final(self).buckets@.len() == len && (match r {
                        Ok(_) => if is_liquidation {
                            exists|b2: MarginBucket|
                                bucket_reserve_ok(b, side, qty, b2) && final(self).buckets@
                                    == old(self).buckets@.update(i, b2)
                        } else {
                            b.spec_validate_open_order(*market_state, side, qty) == Ok::<
                                MarginBucket,
                                ProgramError,
                            >(final(self).buckets@[i]) && final(self).buckets@ == old(
                                self,
                            ).buckets@.update(i, final(self).buckets@[i])
                        },
                        Err(e) => final(self).buckets@ == old(self).buckets@ && if is_liquidation {
                            e == ProgramError::ArithmeticOverflow
                        } else {
                            b.spec_validate_open_order(*market_state, side, qty) == Err::<
                                MarginBucket,
                                ProgramError,
                            >(e)
                        },
                    })
                } else {
                    final(self).buckets@.len() == len + 1 && final(self).buckets@.subrange(0, len as int)
                        == old(self).buckets@ && exists|b0: MarginBucket|
                        #[trigger] b0.spec_is_fresh(
                            MarginScope::MarketIsolated(market_id),
                            market_state.base_token,
                        ) && (match r {
                            Ok(_) => if is_liquidation {
                                bucket_reserve_ok(b0, side, qty, final(self).buckets@[len as int])
                            } else {
                                b0.spec_validate_open_order(*market_state, side, qty) == Ok::<
                                    MarginBucket,
                                    ProgramError,
                                >(final(self).buckets@[len as int])
                            },
                            Err(e) => final(self).buckets@[len as int] == b0 && if is_liquidation {
                                e == ProgramError::ArithmeticOverflow
                            } else {
                                b0.spec_validate_open_order(*market_state, side, qty) == Err::<
                                    MarginBucket,
                                    ProgramError,
                                >(e)
                            },
                        })
                }
            }),
    {
        let market_scope = MarginScope::MarketIsolated(market_id);
        proof {
            lemma_bucket_idx(self.buckets@, market_scope, market_state.base_token);
        }
        let ghost i0 = spec_bucket_idx(
            old(self).buckets@,
            MarginScope::MarketIsolated(market_id),
            market_state.base_token,
        );
        let pos = self.bucket_position(&market_scope, &market_state.base_token);
        let existed = pos < self.buckets.len();
        if !existed {
            self.buckets.push(MarginBucket::new(market_scope, market_state.base_token));
        }
        let mut bucket = self.buckets[pos];
        let ghost b0 = bucket;
        let outcome = if is_liquidation {
            bucket.update_open_order_qty(side, qty)
        } else {
            bucket.validate_and_update_open_order_qty(market_state, side, qty)
        };
        match outcome {
            Ok(_) => {
                *vstd::std_specs::vec::vec_index_mut(&mut self.buckets, pos) = bucket;
                proof {
                    if existed {
                        assert(self.buckets@ =~= old(self).buckets@.update(i0, bucket));
                        if is_liquidation {
                            assert(bucket_reserve_ok(old(self).buckets@[i0], side, qty, bucket));
                        }
                    } else {
                        assert(self.buckets@.subrange(0, old(self).buckets@.len() as int)
                            =~= old(self).buckets@);
                        assert(b0.spec_is_fresh(
                            MarginScope::MarketIsolated(market_id),
                            market_state.base_token,
                        ));
                    }
                }
                Ok(())
            },
            Err(e) => {
                proof {
                    if existed {
                        assert(self.buckets@ =~= old(self).buckets@);
                    } else {
                        assert(self.buckets@.subrange(0, old(self).buckets@.len() as int)
                            =~= old(self).buckets@);
                        assert(b0.spec_is_fresh(
                            MarginScope::MarketIsolated(market_id),
                            market_state.base_token,
                        ));
                        assert(self.buckets@[old(self).buckets@.len() as int] == b0);
                    }
                }
                Err(e)
            },
        }
    }

    /// Room left to add quantity on `side` in `market_id`'s bucket without
    /// breaching the initial margin; zero when no bucket exists.
    pub fn qty_left_for_margin(
        &self,
        market_state: &MarketStateV1,
        market_id: u64,
        side: OrderSide,
    ) -> (r: Result<u64, ProgramError>)
        requires
            ({
                let i = spec_bucket_idx(
                    self.buckets@,
                    MarginScope::MarketIsolated(market_id),
                    market_state.base_token,
                );
                i < self.buckets@.len() ==> {
                    &&& self.buckets@[i].spec_wcd_in_range(side)
                    &&& self.buckets@[i].net_position != i64::MIN
                    &&& spec_eff_im_bps(market_state.im_bps, self.buckets@[i].user_set_im_bps) > 0
                    &&& market_state.last_mark_price > 0
                }
            }),
        ensures
            ({
                let i = spec_bucket_idx(
                    self.buckets@,
                    MarginScope::MarketIsolated(market_id),
                    market_state.base_token,
                );
                if i >= self.buckets@.len() {
                    r == Ok::<u64, ProgramError>(0u64)
                } else {
                    let b = self.buckets@[i];
                    let eff = spec_eff_im_bps(market_state.im_bps, b.user_set_im_bps);
                    let capacity = b.spec_equity(market_state.last_mark_price) * 10_000
                        * 100_000_000 / (eff * market_state.last_mark_price);
                    match r {
                        Ok(v) => b.spec_equity_ok(market_state.last_mark_price) && capacity
                            <= i64::MAX && v == spec_max0(
                            capacity - b.spec_worst_case_direction(side),
                        ),
                        Err(e) => e == ProgramError::ArithmeticOverflow && (!b.spec_equity_ok(
                            market_state.last_mark_price,
                        ) || capacity > i64::MAX),
                    }
                }
            }),
    {
        let scope = MarginScope::MarketIsolated(market_id);
        match self.bucket_for_view(&scope, &market_state.base_token) {
            Some(bucket) => bucket.qty_left_for_margin(market_state, side),
            None => Ok(0),
        }
    }
}

/// A bucket after the filled (or placed) quantity moves its reservation:
/// the position fields take the fill result and the side's reservation
/// releases `qty`, saturating at zero.
pub open spec fn spec_bucket_after_fill(
    b: MarginBucket,
    side: OrderSide,
    qty: u64,
    fr: crate::position::FillResult,
) -> MarginBucket {
    spec_bucket_after_cancel(
        MarginBucket {
            net_position: fr.new_net_position,
            avg_entry_price: fr.new_avg_entry_price,
            ..b
        },
        side,
        qty,
    )
}

/// Committed collateral after banking `pnl`: profits add, losses subtract
/// with a floor at zero.
pub open spec fn spec_committed_after(committed: u64, pnl: i64) -> int {
    if committed + pnl >= 0 {
        committed + pnl
    } else {
        0
    }
}

/// Whether `b2` is `b` with `qty` more reservation on `side`, within
/// range.
pub open spec fn bucket_reserve_ok(b: MarginBucket, side: OrderSide, qty: u64, b2: MarginBucket) -> bool {
    match side {
        OrderSide::Bid => b.open_bid_qty + qty <= u64::MAX && b2 == (MarginBucket {
            open_bid_qty: (b.open_bid_qty + qty) as u64,
            ..b
        }),
        OrderSide::Ask => b.open_ask_qty + qty <= u64::MAX && b2 == (MarginBucket {
            open_ask_qty: (b.open_ask_qty + qty) as u64,
            ..b
        }),
    }
}

/// Law: required margin is monotone.  For a fixed mark price and margin
/// rate, a larger worst-case usage never requires less margin.
pub proof fn lemma_required_margin_monotone(mark: u64, eff_bps: int, u1: int, u2: int)
    requires
        0 <= u1 <= u2,
        eff_bps >= 0,
    ensures
        spec_required_margin(u1, mark, eff_bps) <= spec_required_margin(u2, mark, eff_bps),
{
    assert(u1 * mark <= u2 * mark) by (nonlinear_arith)
        requires
            0 <= u1 <= u2 && mark >= 0,
    ;
    vstd::arithmetic::div_mod::lemma_div_is_ordered(u1 * mark, u2 * mark, 100_000_000);
    let n1 = (u1 * mark) / 100_000_000;
    let n2 = (u2 * mark) / 100_000_000;
    vstd::arithmetic::div_mod::lemma_div_pos_is_pos(u1 * mark, 100_000_000);
    assert(u1 * mark >= 0) by (nonlinear_arith)
        requires
            u1 >= 0 && mark >= 0,
    ;
    assert(n1 * eff_bps <= n2 * eff_bps) by (nonlinear_arith)
        requires
            0 <= n1 <= n2 && eff_bps >= 0,
    ;
    vstd::arithmetic::div_mod::lemma_div_is_ordered(n1 * eff_bps, n2 * eff_bps, 10_000);
}

/// Law: the uncommittable amount never exceeds the committed amount while
/// the position shows no unrealized gain.  With a positive unrealized PnL
/// the equity itself exceeds the committed amount and the bound fails.
pub proof fn lemma_uncommittable_le_committed(b: MarginBucket, mark: u64, im_bps: u16)
    requires
        spec_unrealized_pnl(b.net_position as int, b.avg_entry_price, mark) <= 0,
    ensures
        b.spec_uncommittable(mark, im_bps) <= b.committed,
{
    assert(b.spec_equity(mark) <= b.committed);
}

} // verus!
