use ember_core::calculate_equity;
use ember_core::process_clearing_fill;
use ember_core::process_fill;
use ember_core::Fill;
use ember_core::OrderSide;

#[test]
fn test_zero_to_long_position() {
    let fill = Fill { side: OrderSide::Bid, qty: 100, price: 50_000 };

    let result = process_fill(0, 0, &fill).unwrap();

    assert_eq!(result.new_net_position, 100);
    assert_eq!(result.new_avg_entry_price, 50_000);
    assert_eq!(result.realized_pnl, 0);
}

#[test]
fn test_zero_to_short_position() {
    let fill = Fill { side: OrderSide::Ask, qty: 100, price: 50_000 };

    let result = process_fill(0, 0, &fill).unwrap();

    assert_eq!(result.new_net_position, -100);
    assert_eq!(result.new_avg_entry_price, 50_000);
    assert_eq!(result.realized_pnl, 0);
}

#[test]
fn test_increase_long_position() {
    let fill = Fill { side: OrderSide::Bid, qty: 50, price: 52_000 };

    let result = process_fill(100, 50_000, &fill).unwrap();

    assert_eq!(result.new_net_position, 150);
    // Weighted avg: (100 * 50_000 + 50 * 52_000) / 150 = 50_666
    assert_eq!(result.new_avg_entry_price, 50_666);
    assert_eq!(result.realized_pnl, 0);
}

#[test]
fn test_partial_close_long_position() {
    let fill = Fill { side: OrderSide::Ask, qty: 30, price: 52_000 };

    let result = process_fill(100, 50_000, &fill).unwrap();

    assert_eq!(result.new_net_position, 70);
    assert_eq!(result.new_avg_entry_price, 50_000);
    assert_eq!(result.realized_pnl, 0);
}

#[test]
fn test_full_close_long_position() {
    let fill = Fill { side: OrderSide::Ask, qty: 100, price: 48_000 };

    let result = process_fill(100, 50_000, &fill).unwrap();

    assert_eq!(result.new_net_position, 0);
    assert_eq!(result.new_avg_entry_price, 0);
    assert_eq!(result.realized_pnl, 0);
}

#[test]
fn test_flip_long_to_short() {
    let fill = Fill { side: OrderSide::Ask, qty: 150, price: 51_000 };

    let result = process_fill(100, 50_000, &fill).unwrap();

    assert_eq!(result.new_net_position, -50);
    assert_eq!(result.new_avg_entry_price, 51_000);
    assert_eq!(result.realized_pnl, 0);
}

#[test]
fn test_partial_close_short_position() {
    let fill = Fill { side: OrderSide::Bid, qty: 20, price: 48_000 };

    let result = process_fill(-50, 50_000, &fill).unwrap();

    assert_eq!(result.new_net_position, -30);
    assert_eq!(result.new_avg_entry_price, 50_000);
    assert_eq!(result.realized_pnl, 0);
}

#[test]
fn test_calculate_equity_long_position_profit() {
    let equity = calculate_equity(1_000_000, 100, 50_000, 52_000).unwrap();

    // The unrealized gain of 100 * 2_000 price units vanishes under the 1e8 rescale.
    assert_eq!(equity, 1_000_000);
}

#[test]
fn test_calculate_equity_short_position_loss() {
    let equity = calculate_equity(1_000_000, -50, 50_000, 51_000).unwrap();

    assert_eq!(equity, 1_000_000);
}

#[test]
fn test_calculate_equity_no_position() {
    let equity = calculate_equity(1_000_000, 0, 0, 52_000).unwrap();

    assert_eq!(equity, 1_000_000);
}

#[test]
fn process_fill_is_pure_on_equal_inputs() {
    let fill = Fill { side: OrderSide::Ask, qty: 75, price: 64_000 };
    let a = process_fill(200, 61_000, &fill).unwrap();
    let b = process_fill(200, 61_000, &fill).unwrap();
    assert_eq!(a, b);
}

#[test]
fn avg_entry_zero_iff_position_zero_over_fill_sequence() {
    let fills = [
        Fill { side: OrderSide::Bid, qty: 100, price: 50_000 },
        Fill { side: OrderSide::Bid, qty: 50, price: 52_000 },
        Fill { side: OrderSide::Ask, qty: 150, price: 51_000 },
        Fill { side: OrderSide::Ask, qty: 40, price: 49_000 },
        Fill { side: OrderSide::Bid, qty: 40, price: 48_000 },
    ];
    let mut net = 0i64;
    let mut avg = 0u64;
    for fill in fills.iter() {
        let r = process_fill(net, avg, fill).unwrap();
        net = r.new_net_position;
        avg = r.new_avg_entry_price;
        assert_eq!(avg == 0, net == 0);
    }
    assert_eq!(net, 0);
    assert_eq!(avg, 0);
}

#[test]
fn same_price_fill_keeps_avg_entry() {
    let fill = Fill { side: OrderSide::Bid, qty: 777, price: 62_500 };
    let r = process_fill(1_000, 62_500, &fill).unwrap();
    assert_eq!(r.new_avg_entry_price, 62_500);
    assert_eq!(r.realized_pnl, 0);
}

#[test]
fn close_then_reopen_matches_single_flip() {
    // Close +100 at 51_000, reopen short 50 at the same price...
    let close = Fill { side: OrderSide::Ask, qty: 100, price: 51_000 };
    let closed = process_fill(100, 50_000, &close).unwrap();
    assert_eq!(closed.new_net_position, 0);
    let reopen = Fill { side: OrderSide::Ask, qty: 50, price: 51_000 };
    let reopened = process_fill(0, 0, &reopen).unwrap();

    // ...equals one flipping fill of the combined quantity.
    let flip = Fill { side: OrderSide::Ask, qty: 150, price: 51_000 };
    let flipped = process_fill(100, 50_000, &flip).unwrap();

    assert_eq!(reopened.new_net_position, flipped.new_net_position);
    assert_eq!(reopened.new_avg_entry_price, flipped.new_avg_entry_price);
    assert_eq!(
        closed.realized_pnl + reopened.realized_pnl,
        flipped.realized_pnl
    );
}

#[test]
fn flip_with_realized_pnl_below_scale() {
    // From +100 at 50_000, fill Ask 150 at 51_000: the 100 * 1_000 gain is
    // below the 1e8 rescale and realizes as zero.
    let fill = Fill { side: OrderSide::Ask, qty: 150, price: 51_000 };
    let r = process_fill(100, 50_000, &fill).unwrap();
    assert_eq!(r.new_net_position, -50);
    assert_eq!(r.new_avg_entry_price, 51_000);
    assert_eq!(r.realized_pnl, 0);
}

#[test]
fn clearing_fill_takes_opposite_side() {
    let user_fill = Fill { side: OrderSide::Bid, qty: 100, price: 50_000 };
    let r = process_clearing_fill(0, 0, &user_fill).unwrap();
    assert_eq!(r.new_net_position, -100);
    assert_eq!(r.new_avg_entry_price, 50_000);
}

#[test]
fn realized_pnl_scales_by_1e8() {
    // Closing 10_000_000 units with a 100_000 price gain realizes
    // 10_000_000 * 100_000 / 1e8 = 10_000.
    let fill = Fill { side: OrderSide::Ask, qty: 10_000_000, price: 200_000 };
    let r = process_fill(10_000_000, 100_000, &fill).unwrap();
    assert_eq!(r.new_net_position, 0);
    assert_eq!(r.realized_pnl, 10_000);
}
