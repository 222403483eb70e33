//! Fixed-point multiplication of quantity by price.
//!
//! Quantities carry 1e-8 scaling and prices 1e-6 scaling; the product is
//! scaled back by 1e8 so that notionals and PnL land in 1e-6 quote units.
//! Every quantity-times-price computation in the crate funnels through the
//! two functions here.

use vstd::prelude::*;

use crate::error::ProgramError;

verus! {

/// The fixed-point rescaling divisor: quantity scale 1e-8 times price
/// scale 1e-6 over the 1e-6 quote scale.
pub const QTY_PX_SCALE: u64 = 100_000_000;

/// Division by 1e8 that truncates toward zero, as the executable code does
/// on signed intermediates.
pub open spec fn div_trunc_1e8(x: int) -> int {
    if x >= 0 {
        x / 100_000_000
    } else {
        -((-x) / 100_000_000)
    }
}

/// `qty` (1e-8) times `px` (1e-6) scaled to a 1e-6 notional; fails with
/// `MathOverflow` semantics (`ArithmeticOverflow`) when the scaled product
/// exceeds `u64::MAX`.
pub fn mul_qty_px_to_notional(qty: u64, px: u64) -> (r: Result<u64, ProgramError>)
    ensures
        match r {
            Ok(v) => v == (qty * px) / 100_000_000 && (qty * px) / 100_000_000 <= u64::MAX,
            Err(e) => e == ProgramError::ArithmeticOverflow && (qty * px) / 100_000_000 > u64::MAX,
        },
{
    proof {
        assert((qty as int) * (px as int) <= (u64::MAX as int) * (u64::MAX as int))
            by (nonlinear_arith)
            requires qty <= u64::MAX && px <= u64::MAX;
    }
    let product: u128 = (qty as u128) * (px as u128);
    let scaled: u128 = product / (QTY_PX_SCALE as u128);
    if scaled > u64::MAX as u128 {
        Err(ProgramError::ArithmeticOverflow)
    } else {
        Ok(scaled as u64)
    }
}

/// Signed variant: `qty` times `px` with an `i128` intermediate, truncating
/// toward zero on the 1e8 rescale; fails when the result leaves `i64`.
pub fn mul_qty_px_signed(qty: i64, px: i64) -> (r: Result<i64, ProgramError>)
    ensures
        match r {
            Ok(v) => v == div_trunc_1e8(qty * px)
                && i64::MIN <= div_trunc_1e8(qty * px) <= i64::MAX,
            Err(e) => e == ProgramError::ArithmeticOverflow
                && !(i64::MIN <= div_trunc_1e8(qty * px) <= i64::MAX),
        },
{
    proof {
        assert(i128::MIN < (qty as int) * (px as int) < i128::MAX) by (nonlinear_arith)
            requires i64::MIN <= qty <= i64::MAX && i64::MIN <= px <= i64::MAX;
    }
    let product: i128 = (qty as i128) * (px as i128);
    let scaled: Option<i128> = product.checked_div(100_000_000i128);
    proof {
        let x: int = product as int;
        lemma_div_trunc_in_range(x);
        assert(x == qty * px);
        if x == 0 {
            assert(div_trunc_1e8(x) == 0);
        } else if x > 0 {
            assert(div_trunc_1e8(x) == x / 100_000_000);
        } else {
            assert(div_trunc_1e8(x) == ((x * -1) / 100_000_000) * -1);
        }
        assert(scaled == Some(div_trunc_1e8(x) as i128));
    }
    match scaled {
        Some(s) => {
            if s > i64::MAX as i128 || s < i64::MIN as i128 {
                Err(ProgramError::ArithmeticOverflow)
            } else {
                Ok(s as i64)
            }
        },
        None => Err(ProgramError::ArithmeticOverflow),
    }
}

/// Truncating division by 1e8 agrees with `div_trunc_1e8` for every `i128`
/// value, and never leaves the `i128` range.
pub(crate) proof fn lemma_div_trunc_in_range(x: int)
    requires
        i128::MIN <= x <= i128::MAX,
    ensures
        ({
            let q = div_trunc_1e8(x);
            i128::MIN <= q <= i128::MAX && (x >= 0 ==> q >= 0) && (x < 0 ==> q <= 0)
        }),
{
    if x >= 0 {
        assert(x / 100_000_000 <= x) by (nonlinear_arith)
            requires x >= 0;
        assert(x / 100_000_000 >= 0) by (nonlinear_arith)
            requires x >= 0;
    } else {
        assert((-x) / 100_000_000 <= -x) by (nonlinear_arith)
            requires -x >= 0;
        assert((-x) / 100_000_000 >= 0) by (nonlinear_arith)
            requires -x >= 0;
    }
}

} // verus!
