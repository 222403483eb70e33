//! Per-market parameters and running aggregates.
//!
//! A market carries its conformance parameters (tick size, order-size and
//! open-interest bounds, margin rates), the last observed prices, and the
//! clearing counterparty's position, entry price and realized PnL.  The
//! clearing counterparty by construction takes the opposite side of every
//! user fill.

use vstd::math::abs;
use vstd::prelude::*;

use crate::cma::CmaFillResult;
use crate::error::ProgramError;
use crate::keys::Pubkey;
use crate::math::div_trunc_1e8;
use crate::order::is_zero_bytes;
use crate::order::OrderFillResult;
use crate::order::OrderSide;

verus! {

/// The current market record layout version.
pub const MARKET_STATE_CURRENT_VERSION: u8 = 3;

/// Per-market state record.
#[derive(Debug, Clone, Copy, PartialEq)]
pub struct MarketStateV1 {
    pub version: u8,
    pub _pad: [u8; 128],
    pub oracle: Pubkey,
    pub base_token: Pubkey,
    pub tick_size: u64,
    pub last_bid: u64,
    pub last_ask: u64,
    pub last_mark_price: u64,
    pub last_traded_price: u64,
    pub open_interest: i64,
    pub clearing_net_pos: i64,
    pub clearing_entry_price: u64,
    pub clearing_real_pnl: i64,
    pub im_bps: u16,
    pub mm_bps: u16,
    pub min_order_size: u64,
    pub max_order_size: u64,
    pub max_oi_size: u64,
    pub max_user_oi_size: u64,
    pub fill_offset: u16,
    pub current_log_page: u32,
    pub _pad2: [u8; 16],
    pub _pad3: [u8; 32],
    pub _pad4: [u8; 32],
    pub _pad5: [u8; 256],
}

/// Addition of two signed 64-bit values, clamped to the `i64` range.
pub open spec fn spec_sat_add_i64(a: int, b: int) -> int {
    if a + b > i64::MAX {
        i64::MAX as int
    } else if a + b < i64::MIN {
        i64::MIN as int
    } else {
        a + b
    }
}

/// Saturating signed addition.
pub(crate) fn sat_add_i64(a: i64, b: i64) -> (r: i64)
    ensures
        r == spec_sat_add_i64(a as int, b as int),
{
    let s: i128 = (a as i128) + (b as i128);
    if s > i64::MAX as i128 {
        i64::MAX
    } else if s < i64::MIN as i128 {
        i64::MIN
    } else {
        s as i64
    }
}

impl Default for MarketStateV1 {
    /// A market at the current layout version with every parameter zero.
    fn default() -> (r: Self)
        ensures
            r.spec_is_default(),
    {
        MarketStateV1 {
            version: MARKET_STATE_CURRENT_VERSION,
            _pad: [0u8; 128],
            oracle: Pubkey::zeroed(),
            base_token: Pubkey::zeroed(),
            tick_size: 0,
            last_bid: 0,
            last_ask: 0,
            last_mark_price: 0,
            last_traded_price: 0,
            open_interest: 0,
            clearing_net_pos: 0,
            clearing_entry_price: 0,
            clearing_real_pnl: 0,
            im_bps: 0,
            mm_bps: 0,
            min_order_size: 0,
            max_order_size: 0,
            max_oi_size: 0,
            max_user_oi_size: 0,
            fill_offset: 0,
            current_log_page: 0,
            _pad2: [0u8; 16],
            _pad3: [0u8; 32],
            _pad4: [0u8; 32],
            _pad5: [0u8; 256],
        }
    }
}

impl MarketStateV1 {
    /// Whether this record carries the default values: current version and
    /// every parameter zero.
    pub open spec fn spec_is_default(self) -> bool {
        &&& self.version == MARKET_STATE_CURRENT_VERSION
        &&& is_zero_bytes(self._pad@)
        &&& self.oracle == Pubkey::spec_default()
        &&& self.base_token == Pubkey::spec_default()
        &&& self.tick_size == 0
        &&& self.last_bid == 0
        &&& self.last_ask == 0
        &&& self.last_mark_price == 0
        &&& self.last_traded_price == 0
        &&& self.open_interest == 0
        &&& self.clearing_net_pos == 0
        &&& self.clearing_entry_price == 0
        &&& self.clearing_real_pnl == 0
        &&& self.im_bps == 0
        &&& self.mm_bps == 0
        &&& self.min_order_size == 0
        &&& self.max_order_size == 0
        &&& self.max_oi_size == 0
        &&& self.max_user_oi_size == 0
        &&& self.fill_offset == 0
        &&& self.current_log_page == 0
        &&& is_zero_bytes(self._pad2@)
        &&& is_zero_bytes(self._pad3@)
        &&& is_zero_bytes(self._pad4@)
        &&& is_zero_bytes(self._pad5@)
    }

    /// The mid price, or zero when either side is missing.
    pub fn mid_price(&self) -> (r: u64)
        ensures
            r == if self.last_bid == 0 || self.last_ask == 0 {
                0int
            } else {
                (self.last_bid + self.last_ask) / 2
            },
    {
        if self.last_bid == 0 || self.last_ask == 0 {
            0
        } else {
            (((self.last_bid as u128) + (self.last_ask as u128)) / 2) as u64
        }
    }

    /// The bid-ask spread, or zero when either side is missing.
    pub fn spread(&self) -> (r: u64)
        requires
            self.last_bid == 0 || self.last_ask == 0 || self.last_bid <= self.last_ask,
        ensures
            r == if self.last_bid == 0 || self.last_ask == 0 {
                0int
            } else {
                self.last_ask - self.last_bid
            },
    {
        if self.last_bid == 0 || self.last_ask == 0 {
            0
        } else {
            self.last_ask - self.last_bid
        }
    }

    /// Whether the market has both sides quoted.
    pub fn is_active(&self) -> (r: bool)
        ensures
            r == (self.last_bid > 0 && self.last_ask > 0),
    {
        self.last_bid > 0 && self.last_ask > 0
    }

    /// Whether an order of `qty` at `price` conforms to the market: at
    /// least the minimum size, within the maximum size when one is set,
    /// tick-aligned unless a market order (price zero), and only while a
    /// mark price exists.
    pub open spec fn spec_order_conforms(self, qty: u64, price: u64) -> bool {
        &&& qty >= self.min_order_size
        &&& self.max_order_size == 0 || qty <= self.max_order_size
        &&& price == 0 || price % self.tick_size == 0
        &&& self.last_mark_price != 0
    }

    /// Validate an order against the market's conformance parameters.
    pub fn validate_order_conformance(&self, qty: u64, price: u64) -> (r: Result<
        (),
        ProgramError,
    >)
        requires
            price == 0 || self.tick_size > 0,
        ensures
            match r {
                Ok(_) => self.spec_order_conforms(qty, price),
                Err(e) => e == ProgramError::InvalidArgument && !self.spec_order_conforms(
                    qty,
                    price,
                ),
            },
    {
        if qty < self.min_order_size {
            return Err(ProgramError::InvalidArgument);
        }
        if self.max_order_size > 0 && qty > self.max_order_size {
            return Err(ProgramError::InvalidArgument);
        }
        let is_mkt_order: bool = price == 0;
        if !is_mkt_order && price % self.tick_size != 0 {
            return Err(ProgramError::InvalidArgument);
        }
        if self.last_mark_price == 0 {
            return Err(ProgramError::InvalidArgument);
        }
        Ok(())
    }

    /// The open interest after a fill: the previous value plus the change
    /// in the user's absolute position, saturating in `i64`.
    pub open spec fn spec_oi_after(self, cma: CmaFillResult) -> int {
        spec_sat_add_i64(
            self.open_interest as int,
            abs(cma.new_net_position as int) - abs(cma.old_net_position as int),
        )
    }

    /// Whether a fill fails the open-interest cap: the updated open
    /// interest exceeds the cap while the fill does not reduce it.
    pub open spec fn spec_oi_rejected(self, cma: CmaFillResult) -> bool {
        let oi = self.spec_oi_after(cma);
        let change = abs(cma.new_net_position as int) - abs(cma.old_net_position as int);
        oi > 0 && oi > self.max_oi_size && change >= 0
    }

    /// The clearing counterparty's signed position change for a user fill:
    /// the clearing side is opposite the user's.
    pub open spec fn spec_clearing_change(fill: OrderFillResult) -> int {
        match fill.side {
            OrderSide::Bid => -(fill.filled_qty as int),
            OrderSide::Ask => fill.filled_qty as int,
        }
    }

    /// The clearing entry price after a fill, before the reset applied
    /// when the clearing position returns to zero.
    pub open spec fn spec_clearing_entry_after(self, fill: OrderFillResult) -> int {
        let qty = fill.filled_qty as int;
        let price = fill.weighted_avg_price as int;
        let old_cp = self.clearing_net_pos as int;
        let change = Self::spec_clearing_change(fill);
        let new_cp = old_cp + change;
        if (old_cp >= 0 && change > 0) || (old_cp <= 0 && change < 0) {
            let total_position = abs(old_cp) + qty;
            if total_position > 0 {
                (abs(old_cp) * self.clearing_entry_price + qty * price) / total_position
            } else {
                self.clearing_entry_price as int
            }
        } else if old_cp != 0 && ((old_cp > 0 && change < 0) || (old_cp < 0 && change > 0)) {
            if new_cp != 0 && ((old_cp > 0) != (new_cp > 0)) {
                price
            } else {
                self.clearing_entry_price as int
            }
        } else if old_cp == 0 {
            price
        } else {
            self.clearing_entry_price as int
        }
    }

    /// The realized PnL the clearing counterparty books on a reducing or
    /// flipping fill; zero otherwise.
    pub open spec fn spec_clearing_realized(self, fill: OrderFillResult) -> int {
        let qty = fill.filled_qty as int;
        let price = fill.weighted_avg_price as int;
        let old_cp = self.clearing_net_pos as int;
        let change = Self::spec_clearing_change(fill);
        if old_cp != 0 && !((old_cp >= 0 && change > 0) || (old_cp <= 0 && change < 0)) && ((old_cp
            > 0 && change < 0) || (old_cp < 0 && change > 0)) {
            let reduction = if qty <= abs(old_cp) {
                qty
            } else {
                abs(old_cp) as int
            };
            let diff = if old_cp > 0 {
                price - self.clearing_entry_price
            } else {
                self.clearing_entry_price - price
            };
            div_trunc_1e8(diff * reduction)
        } else {
            0
        }
    }

    /// Whether a fill's clearing-side arithmetic stays within machine
    /// ranges: the fill quantity and new clearing position fit `i64`, the
    /// weighted-entry terms fit `u64` on an increasing fill, and the
    /// realized PnL fits `i64` on a reducing one.
    pub open spec fn spec_fill_in_range(self, fill: OrderFillResult, cma: CmaFillResult) -> bool {
        let qty = fill.filled_qty as int;
        let price = fill.weighted_avg_price as int;
        let old_cp = self.clearing_net_pos as int;
        let change = Self::spec_clearing_change(fill);
        &&& cma.new_net_position != i64::MIN
        &&& cma.old_net_position != i64::MIN
        &&& fill.filled_qty <= i64::MAX
        &&& i64::MIN <= old_cp + change <= i64::MAX
        &&& ((old_cp >= 0 && change > 0) || (old_cp <= 0 && change < 0)) ==> {
            &&& abs(old_cp) * self.clearing_entry_price <= u64::MAX
            &&& qty * price <= u64::MAX
            &&& abs(old_cp) * self.clearing_entry_price + qty * price <= u64::MAX
            &&& abs(old_cp) + qty <= u64::MAX
        }
        &&& i64::MIN <= self.spec_clearing_realized(fill) <= i64::MAX
    }

    /// The market state after a successful fill.
    pub open spec fn spec_after_fill(self, fill: OrderFillResult, cma: CmaFillResult) -> MarketStateV1 {
        let new_cp = self.clearing_net_pos + Self::spec_clearing_change(fill);
        MarketStateV1 {
            last_traded_price: fill.weighted_avg_price,
            open_interest: self.spec_oi_after(cma) as i64,
            clearing_net_pos: new_cp as i64,
            clearing_entry_price: if new_cp == 0 {
                0u64
            } else {
                self.spec_clearing_entry_after(fill) as u64
            },
            clearing_real_pnl: spec_sat_add_i64(
                self.clearing_real_pnl as int,
                self.spec_clearing_realized(fill),
            ) as i64,
            ..self
        }
    }

    /// Apply a fill to the market state: record the traded price, move the
    /// open interest by the change in the user's absolute position
    /// (rejecting growth past the cap), and take the opposite side into
    /// the clearing counterparty's position, entry price and realized PnL.
    pub fn process_fill(&mut self, fill: &OrderFillResult, cma_fill_result: &CmaFillResult) -> (r:
        Result<(), ProgramError>)
        requires
            old(self).spec_fill_in_range(*fill, *cma_fill_result),
        ensures
            match r {
                Ok(_) => !old(self).spec_oi_rejected(*cma_fill_result) && *final(self) == old(
                    self,
                ).spec_after_fill(*fill, *cma_fill_result),
                Err(e) => {
                    &&& e == ProgramError::InvalidArgument
                    &&& old(self).spec_oi_rejected(*cma_fill_result)
                    &&& *final(self) == (MarketStateV1 {
                        last_traded_price: fill.weighted_avg_price,
                        open_interest: old(self).spec_oi_after(*cma_fill_result) as i64,
                        ..*old(self)
                    })
                },
            },
    {
        self.last_traded_price = fill.weighted_avg_price;
        let new_abs = crate::position::abs_i64(cma_fill_result.new_net_position);
        let old_abs = crate::position::abs_i64(cma_fill_result.old_net_position);
        let open_interest_change: i64 = ((new_abs as i128) - (old_abs as i128)) as i64;
        self.open_interest = sat_add_i64(self.open_interest, open_interest_change);
        if self.open_interest > 0 && (self.open_interest as u64) > self.max_oi_size {
            if open_interest_change >= 0 {
                return Err(ProgramError::InvalidArgument);
            }
        }
        let fill_qty = fill.filled_qty;
        let fill_price = fill.weighted_avg_price;
        let clearing_position_change: i64 = match fill.side {
            OrderSide::Bid => -(fill_qty as i64),
            OrderSide::Ask => fill_qty as i64,
        };
        let old_clearing_pos = self.clearing_net_pos;
        let new_clearing_pos = old_clearing_pos + clearing_position_change;
        if (old_clearing_pos >= 0 && clearing_position_change > 0) || (old_clearing_pos <= 0
            && clearing_position_change < 0) {
            let old_mag = crate::position::abs_i64(old_clearing_pos);
            let old_notional = old_mag * self.clearing_entry_price;
            let new_notional = fill_qty * fill_price;
            let total_notional = old_notional + new_notional;
            let total_position = old_mag + fill_qty;
            if total_position > 0 {
                self.clearing_entry_price = total_notional / total_position;
            }
        } else if old_clearing_pos != 0 && ((old_clearing_pos > 0 && clearing_position_change < 0)
            || (old_clearing_pos < 0 && clearing_position_change > 0)) {
            let old_mag = crate::position::abs_i64(old_clearing_pos);
            let reduction_qty: u64 = if fill_qty <= old_mag {
                fill_qty
            } else {
                old_mag
            };
            let diff: i128 = if old_clearing_pos > 0 {
                (fill_price as i128) - (self.clearing_entry_price as i128)
            } else {
                (self.clearing_entry_price as i128) - (fill_price as i128)
            };
            proof {
                assert(-(u64::MAX as int) * (i64::MAX as int) <= diff * (reduction_qty as int) <= (
                u64::MAX as int) * (i64::MAX as int)) by (nonlinear_arith)
                    requires
                        -(u64::MAX as int) <= diff <= u64::MAX as int && 0 <= reduction_qty
                            <= i64::MAX as int,
                ;
            }
            let prod: i128 = diff * (reduction_qty as i128);
            let realized_pnl: i64 = match prod.checked_div(100_000_000i128) {
                Some(s) => {
                    proof {
                        crate::math::lemma_div_trunc_in_range(prod as int);
                        assert(s == div_trunc_1e8(prod as int));
                    }
                    s as i64
                },
                None => 0,  // unreachable: the quotient of an i128 by 1e8 fits i128
            };
            self.clearing_real_pnl = sat_add_i64(self.clearing_real_pnl, realized_pnl);
            if new_clearing_pos != 0 && ((old_clearing_pos > 0) != (new_clearing_pos > 0)) {
                self.clearing_entry_price = fill_price;
            }
        } else if old_clearing_pos == 0 {
            self.clearing_entry_price = fill_price;
        }
        self.clearing_net_pos = new_clearing_pos;
        if new_clearing_pos == 0 {
            self.clearing_entry_price = 0;
        }
        Ok(())
    }
}

} // verus!
