//! Pure position algebra.
//!
//! `process_fill` is the single source of truth for how a fill moves a
//! position: it maps `(net, avg_entry, fill)` to `(new_net, new_avg_entry,
//! realized_pnl)` across the open, increase, reduce, close and flip
//! scenarios.  Every caller in the crate funnels position updates through
//! it.

use vstd::math::abs;
use vstd::prelude::*;

use crate::error::ProgramError;
use crate::math::div_trunc_1e8;
use crate::order::OrderSide;

verus! {

/// A fill event for position tracking.
#[derive(Debug, Clone, Copy, PartialEq, Eq, Structural)]
pub struct Fill {
    pub side: OrderSide,
    pub qty: u64,
    pub price: u64,
}

/// Result of processing a fill against a position.
#[derive(Debug, Clone, Copy, PartialEq, Eq, Structural)]
pub struct FillResult {
    pub new_net_position: i64,
    pub new_avg_entry_price: u64,
    pub realized_pnl: i64,
}

/// The signed position change of a fill: positive for a bid, negative for
/// an ask.
pub open spec fn spec_delta(side: OrderSide, qty: u64) -> int {
    match side {
        OrderSide::Bid => qty as int,
        OrderSide::Ask => -(qty as int),
    }
}

/// Whether a change of `delta` grows the magnitude of a nonzero position
/// without crossing zero.
pub open spec fn spec_is_increase(net: int, delta: int) -> bool {
    (net > 0 && delta > 0) || (net < 0 && delta < 0)
}

/// Whether the position fully closes or flips: the new net position is zero
/// or on the other side.
pub open spec fn spec_is_crossing(net: int, new_net: int) -> bool {
    (net > 0 && new_net <= 0) || (net < 0 && new_net >= 0)
}

/// Whether the position changes sign outright.
pub open spec fn spec_is_flip(net: int, new_net: int) -> bool {
    (net > 0 && new_net < 0) || (net < 0 && new_net > 0)
}

/// Quantity closed by a reducing fill: the whole old position when it
/// closes or flips, otherwise the fill quantity.
pub open spec fn spec_closed_qty(net: int, new_net: int, qty: u64) -> int {
    if spec_is_crossing(net, new_net) {
        abs(net) as int
    } else {
        qty as int
    }
}

/// Exit price minus entry price for a long, entry minus exit for a short.
pub open spec fn spec_price_diff(was_long: bool, avg: u64, price: u64) -> int {
    if was_long {
        price - avg
    } else {
        avg - price
    }
}

/// Realized PnL of closing `closed` units entered at `avg`: the closed
/// quantity times the price difference, rescaled by 1e8 with truncation
/// toward zero.
pub open spec fn spec_realized_pnl(closed: int, was_long: bool, avg: u64, price: u64) -> int {
    div_trunc_1e8(closed * spec_price_diff(was_long, avg, price))
}

/// Quantity-weighted average entry price of `q0` units at `p0` merged with
/// `q1` units at `p1`, with integer truncation.
pub open spec fn spec_weighted_avg(q0: int, p0: int, q1: int, p1: int) -> int {
    (q0 * p0 + q1 * p1) / (q0 + q1)
}

/// Whether processing `f` against `(net, avg)` stays within the machine
/// ranges that `process_fill` checks: the new net position fits `i64`; an
/// increasing fill keeps its weighted-average terms within `u64`; a
/// reducing fill keeps the realized PnL within `i64`.
pub open spec fn spec_fill_ok(net: i64, avg: u64, f: Fill) -> bool {
    let delta = spec_delta(f.side, f.qty);
    let new_net = net + delta;
    &&& i64::MIN <= new_net <= i64::MAX
    &&& if net == 0 {
        true
    } else if spec_is_increase(net as int, delta) {
        &&& abs(net as int) * avg <= u64::MAX
        &&& f.qty * f.price <= u64::MAX
        &&& abs(net as int) * avg + f.qty * f.price <= u64::MAX
        &&& abs(net as int) + f.qty <= u64::MAX
    } else {
        i64::MIN <= spec_realized_pnl(
            spec_closed_qty(net as int, new_net, f.qty),
            net > 0,
            avg,
            f.price,
        ) <= i64::MAX
    }
}

/// The result of a fill that stays in range, scenario by scenario.
pub open spec fn spec_fill_result(net: i64, avg: u64, f: Fill) -> FillResult {
    let delta = spec_delta(f.side, f.qty);
    let new_net = net + delta;
    if net == 0 {
        FillResult {
            new_net_position: new_net as i64,
            new_avg_entry_price: f.price,
            realized_pnl: 0,
        }
    } else if spec_is_increase(net as int, delta) {
        FillResult {
            new_net_position: new_net as i64,
            new_avg_entry_price: spec_weighted_avg(
                abs(net as int) as int,
                avg as int,
                f.qty as int,
                f.price as int,
            ) as u64,
            realized_pnl: 0,
        }
    } else {
        FillResult {
            new_net_position: new_net as i64,
            new_avg_entry_price: if new_net == 0 {
                0u64
            } else if spec_is_flip(net as int, new_net) {
                f.price
            } else {
                avg
            },
            realized_pnl: spec_realized_pnl(
                spec_closed_qty(net as int, new_net, f.qty),
                net > 0,
                avg,
                f.price,
            ) as i64,
        }
    }
}

/// What `process_fill` returns for `(net, avg, f)`: the scenario result
/// when every intermediate stays in range, and `ArithmeticOverflow`
/// otherwise.
pub open spec fn fill_result_matches(
    net: i64,
    avg: u64,
    f: Fill,
    r: Result<FillResult, ProgramError>,
) -> bool {
    if spec_fill_ok(net, avg, f) {
        r == Ok::<FillResult, ProgramError>(spec_fill_result(net, avg, f))
    } else {
        r == Err::<FillResult, ProgramError>(ProgramError::ArithmeticOverflow)
    }
}

/// The magnitude of a signed position, as an unsigned quantity.
pub(crate) fn abs_i64(x: i64) -> (r: u64)
    ensures
        r == abs(x as int),
{
    if x >= 0 {
        x as u64
    } else {
        (-(x as i128)) as u64
    }
}

/// Apply a fill to a position.  Covers all five scenarios: opening from
/// zero, increasing, reducing, closing, and flipping; fails with
/// `ArithmeticOverflow` exactly when an intermediate value leaves its
/// machine range.
pub fn process_fill(
    current_net_position: i64,
    current_avg_entry_price: u64,
    fill: &Fill,
) -> (r: Result<FillResult, ProgramError>)
    ensures
        fill_result_matches(current_net_position, current_avg_entry_price, *fill, r),
{
    let net = current_net_position;
    let avg = current_avg_entry_price;
    let delta: i128 = match fill.side {
        OrderSide::Bid => fill.qty as i128,
        OrderSide::Ask => -(fill.qty as i128),
    };
    let new_net128: i128 = (net as i128) + delta;
    if new_net128 > i64::MAX as i128 || new_net128 < i64::MIN as i128 {
        return Err(ProgramError::ArithmeticOverflow);
    }
    let new_net = new_net128 as i64;
    if net == 0 {
        return Ok(FillResult {
            new_net_position: new_net,
            new_avg_entry_price: fill.price,
            realized_pnl: 0,
        });
    }
    let is_increasing = (net > 0 && delta > 0) || (net < 0 && delta < 0);
    if is_increasing {
        let existing_qty = abs_i64(net);
        let existing_value = match existing_qty.checked_mul(avg) {
            Some(v) => v,
            None => { return Err(ProgramError::ArithmeticOverflow) },
        };
        let new_value = match fill.qty.checked_mul(fill.price) {
            Some(v) => v,
            None => { return Err(ProgramError::ArithmeticOverflow) },
        };
        let total_value = match existing_value.checked_add(new_value) {
            Some(v) => v,
            None => { return Err(ProgramError::ArithmeticOverflow) },
        };
        let total_qty = match existing_qty.checked_add(fill.qty) {
            Some(v) => v,
            None => { return Err(ProgramError::ArithmeticOverflow) },
        };
        let new_avg_entry_price = total_value / total_qty;
        Ok(FillResult { new_net_position: new_net, new_avg_entry_price, realized_pnl: 0 })
    } else {
        let crossing = (net > 0 && new_net <= 0) || (net < 0 && new_net >= 0);
        let position_closed: u64 = if crossing {
            abs_i64(net)
        } else {
            fill.qty
        };
        let realized_pnl = match calculate_realized_pnl(net > 0, position_closed, avg, fill.price) {
            Ok(v) => v,
            Err(e) => { return Err(e) },
        };
        let new_avg_entry_price: u64 = if new_net == 0 {
            0
        } else if (net > 0 && new_net < 0) || (net < 0 && new_net > 0) {
            fill.price
        } else {
            avg
        };
        Ok(FillResult { new_net_position: new_net, new_avg_entry_price, realized_pnl })
    }
}

/// Realized PnL of closing `qty_closed` units entered at `avg_entry_price`
/// and exited at `exit_price`; fails when the rescaled PnL leaves `i64`.
pub fn calculate_realized_pnl(
    was_long: bool,
    qty_closed: u64,
    avg_entry_price: u64,
    exit_price: u64,
) -> (r: Result<i64, ProgramError>)
    ensures
        match r {
            Ok(v) => v == spec_realized_pnl(qty_closed as int, was_long, avg_entry_price, exit_price)
                && i64::MIN <= v <= i64::MAX,
            Err(e) => e == ProgramError::ArithmeticOverflow && !(i64::MIN <= spec_realized_pnl(
                qty_closed as int,
                was_long,
                avg_entry_price,
                exit_price,
            ) <= i64::MAX),
        },
{
    let (hi, lo) = if was_long {
        (exit_price, avg_entry_price)
    } else {
        (avg_entry_price, exit_price)
    };
    let ghost diff: int = spec_price_diff(was_long, avg_entry_price, exit_price);
    if hi >= lo {
        proof {
            assert(0 <= (qty_closed as int) * ((hi - lo) as int) <= u128::MAX) by (nonlinear_arith)
                requires
                    0 <= qty_closed <= u64::MAX && 0 <= hi - lo <= u64::MAX,
            ;
        }
        let mag: u128 = (qty_closed as u128) * ((hi - lo) as u128);
        proof {
            assert((qty_closed as int) * diff == mag) by (nonlinear_arith)
                requires
                    diff == hi - lo && mag == (qty_closed as int) * ((hi - lo) as int),
            ;
        }
        let scaled: u128 = mag / 100_000_000u128;
        if scaled > i64::MAX as u128 {
            Err(ProgramError::ArithmeticOverflow)
        } else {
            Ok(scaled as i64)
        }
    } else {
        proof {
            assert(0 <= (qty_closed as int) * ((lo - hi) as int) <= u128::MAX) by (nonlinear_arith)
                requires
                    0 <= qty_closed <= u64::MAX && 0 <= lo - hi <= u64::MAX,
            ;
        }
        let mag: u128 = (qty_closed as u128) * ((lo - hi) as u128);
        proof {
            assert((qty_closed as int) * diff == -mag) by (nonlinear_arith)
                requires
                    diff == hi - lo && lo - hi >= 0 && mag == (qty_closed as int) * ((lo - hi)
                        as int),
            ;
        }
        let scaled: u128 = mag / 100_000_000u128;
        proof {
            assert(div_trunc_1e8((qty_closed as int) * diff) == -(scaled as int));
        }
        if scaled > (i64::MAX as u128) + 1 {
            Err(ProgramError::ArithmeticOverflow)
        } else if scaled == (i64::MAX as u128) + 1 {
            Ok(i64::MIN)
        } else {
            Ok(-(scaled as i64))
        }
    }
}

/// Process a fill for the market-wide clearing counterparty, which takes
/// the opposite side of every user fill.
pub fn process_clearing_fill(
    current_net_position: i64,
    current_avg_entry_price: u64,
    user_fill: &Fill,
) -> (r: Result<FillResult, ProgramError>)
    ensures
        fill_result_matches(
            current_net_position,
            current_avg_entry_price,
            (Fill {
                side: match user_fill.side {
                    OrderSide::Bid => OrderSide::Ask,
                    OrderSide::Ask => OrderSide::Bid,
                },
                ..*user_fill
            }),
            r,
        ),
{
    let clearing_fill = Fill {
        side: match user_fill.side {
            OrderSide::Bid => OrderSide::Ask,
            OrderSide::Ask => OrderSide::Bid,
        },
        qty: user_fill.qty,
        price: user_fill.price,
    };
    process_fill(current_net_position, current_avg_entry_price, &clearing_fill)
}

/// Unrealized PnL of a position marked at `mark`: zero for a flat
/// position, otherwise the whole position's PnL at the mark price.
pub open spec fn spec_unrealized_pnl(net: int, avg: u64, mark: u64) -> int {
    if net == 0 {
        0
    } else {
        spec_realized_pnl(abs(net) as int, net > 0, avg, mark)
    }
}

/// Equity of a position: committed collateral plus unrealized PnL, as a
/// signed value.  Fails when the committed amount or the sum leaves `i64`.
pub fn calculate_equity(
    committed_collateral: u64,
    net_position: i64,
    avg_entry_price: u64,
    mark_price: u64,
) -> (r: Result<i64, ProgramError>)
    ensures
        match r {
            Ok(v) => v == committed_collateral + spec_unrealized_pnl(
                net_position as int,
                avg_entry_price,
                mark_price,
            ) && committed_collateral <= i64::MAX,
            Err(e) => {
                let u = spec_unrealized_pnl(net_position as int, avg_entry_price, mark_price);
                e == ProgramError::ArithmeticOverflow && (committed_collateral > i64::MAX || !(
                i64::MIN <= u <= i64::MAX) || !(i64::MIN <= committed_collateral + u <= i64::MAX))
            },
        },
{
    if committed_collateral > i64::MAX as u64 {
        return Err(ProgramError::ArithmeticOverflow);
    }
    if net_position == 0 {
        return Ok(committed_collateral as i64);
    }
    let unrealized_pnl = match calculate_realized_pnl(
        net_position > 0,
        abs_i64(net_position),
        avg_entry_price,
        mark_price,
    ) {
        Ok(v) => v,
        Err(e) => { return Err(e) },
    };
    match (committed_collateral as i64).checked_add(unrealized_pnl) {
        Some(equity) => Ok(equity),
        None => Err(ProgramError::ArithmeticOverflow),
    }
}

/// Law: the position algebra is a pure function.  Any two results that
/// satisfy `process_fill`'s contract for the same `(net, avg, fill)` are
/// equal, so two invocations on equal inputs return equal results.
pub proof fn lemma_process_fill_deterministic(
    net: i64,
    avg: u64,
    f: Fill,
    r1: Result<FillResult, ProgramError>,
    r2: Result<FillResult, ProgramError>,
)
    requires
        fill_result_matches(net, avg, f, r1),
        fill_result_matches(net, avg, f, r2),
    ensures
        r1 == r2,
{
}

/// Law: the average entry price is zero exactly when the net position is
/// zero.  A fill of positive quantity at a positive price preserves the
/// property; zero-quantity or zero-price fills are excluded because a
/// zero-quantity fill on a flat position would install the fill price as
/// entry price, and a zero-price fill would open a position at entry
/// price zero.
pub proof fn lemma_avg_zero_iff_net_zero(net: i64, avg: u64, f: Fill)
    requires
        f.qty > 0,
        f.price > 0,
        avg == 0 <==> net == 0,
        spec_fill_ok(net, avg, f),
    ensures
        ({
            let r = spec_fill_result(net, avg, f);
            r.new_avg_entry_price == 0 <==> r.new_net_position == 0
        }),
{
    let delta = spec_delta(f.side, f.qty);
    let new_net = net + delta;
    if net != 0 && spec_is_increase(net as int, delta) {
        let q0 = abs(net as int) as int;
        let q1 = f.qty as int;
        let wavg = spec_weighted_avg(q0, avg as int, q1, f.price as int);
        assert(q0 * avg + q1 * f.price >= (q0 + q1) * 1) by (nonlinear_arith)
            requires
                q0 >= 1 && q1 >= 1 && avg >= 1 && f.price >= 1,
        ;
        vstd::arithmetic::div_mod::lemma_div_is_ordered(
            (q0 + q1) * 1,
            q0 * avg + q1 * f.price,
            q0 + q1,
        );
        vstd::arithmetic::div_mod::lemma_div_multiples_vanish(1, q0 + q1);
        assert(wavg >= 1);
    }
}

/// Law: a same-side fill at the position's own entry price leaves the
/// weighted average entry price unchanged.
pub proof fn lemma_same_price_fill_keeps_avg(net: i64, avg: u64, f: Fill)
    requires
        net != 0,
        spec_is_increase(net as int, spec_delta(f.side, f.qty)),
        f.price == avg,
        spec_fill_ok(net, avg, f),
    ensures
        spec_fill_result(net, avg, f).new_avg_entry_price == avg,
{
    let q0 = abs(net as int) as int;
    let q1 = f.qty as int;
    assert(q0 * avg + q1 * avg == (q0 + q1) * avg) by (nonlinear_arith);
    vstd::arithmetic::div_mod::lemma_div_multiples_vanish(avg as int, q0 + q1);
}

/// Law: closing a position with a fill at `p` and then reopening on the
/// other side at the same price reaches the same position, entry price and
/// realized PnL as one flipping fill of the combined quantity: the close
/// captures exactly the PnL that the flip realizes.
pub proof fn lemma_close_then_reopen_equals_flip(net: i64, avg: u64, p: u64, qty: u64)
    requires
        net != 0,
        qty > 0,
        abs(net as int) + qty <= u64::MAX,
    ensures
        ({
            let close_side = if net > 0 {
                OrderSide::Ask
            } else {
                OrderSide::Bid
            };
            let close = Fill { side: close_side, qty: abs(net as int) as u64, price: p };
            let reopen = Fill { side: close_side, qty, price: p };
            let flip = Fill { side: close_side, qty: (abs(net as int) + qty) as u64, price: p };
            spec_fill_ok(net, avg, close) && spec_fill_ok(net, avg, flip) ==> {
                let r_close = spec_fill_result(net, avg, close);
                let r_reopen = spec_fill_result(0i64, 0u64, reopen);
                let r_flip = spec_fill_result(net, avg, flip);
                &&& r_close.new_net_position == 0
                &&& r_reopen.new_net_position == r_flip.new_net_position
                &&& r_reopen.new_avg_entry_price == r_flip.new_avg_entry_price
                &&& r_close.realized_pnl + r_reopen.realized_pnl == r_flip.realized_pnl
            }
        }),
{
}

} // verus!
