use ember_core::mul_qty_px_signed;
use ember_core::mul_qty_px_to_notional;
use ember_core::ProgramError;

#[test]
fn notional_rescales_by_1e8() {
    // 5_000_000 * 100_000 / 1e8 = 5_000
    assert_eq!(mul_qty_px_to_notional(5_000_000, 100_000).unwrap(), 5_000);
    assert_eq!(mul_qty_px_to_notional(0, 100_000).unwrap(), 0);
    assert_eq!(mul_qty_px_to_notional(99_999_999, 1).unwrap(), 0);
    assert_eq!(mul_qty_px_to_notional(100_000_000, 1).unwrap(), 1);
}

#[test]
fn notional_overflow_is_reported() {
    let result = mul_qty_px_to_notional(u64::MAX, u64::MAX);
    assert_eq!(result.unwrap_err(), ProgramError::ArithmeticOverflow);
}

#[test]
fn signed_product_truncates_toward_zero() {
    assert_eq!(mul_qty_px_signed(100, -1).unwrap(), 0);
    assert_eq!(mul_qty_px_signed(-100_000_000, 3).unwrap(), -3);
    assert_eq!(mul_qty_px_signed(-150_000_000, 1).unwrap(), -1);
    assert_eq!(mul_qty_px_signed(150_000_000, 1).unwrap(), 1);
}

#[test]
fn signed_overflow_is_reported() {
    let result = mul_qty_px_signed(i64::MAX, i64::MAX);
    assert_eq!(result.unwrap_err(), ProgramError::ArithmeticOverflow);
}
