use ember_core::CrossMarginAccountV1;
use ember_core::MarginBucket;
use ember_core::MarginScope;
use ember_core::MarketStateV1;
use ember_core::OrderSide;
use ember_core::Pubkey;

fn key(n: u64) -> Pubkey {
    Pubkey::new(n, 9, 9, 9)
}

fn scenario_market() -> MarketStateV1 {
    MarketStateV1 {
        im_bps: 1000,
        last_mark_price: 100_000,
        tick_size: 1,
        min_order_size: 1_000,
        base_token: key(100),
        ..Default::default()
    }
}

#[test]
fn scenario_open_long_partial_then_full_fill() {
    // Commit 10_000_000, place a bid of 5_000_000 at 100_000, then fill
    // 3_000_000 and 2_000_000 at the same price.
    let market = scenario_market();
    let market_id = 7u64;
    let mint = market.base_token;
    let mut cma = CrossMarginAccountV1 {
        version: 2,
        _pad: [0; 128],
        user: key(1),
        balances: vec![],
        buckets: vec![],
        _pad2: [0; 8],
    };
    let scope = MarginScope::MarketIsolated(market_id);
    let bucket = cma.bucket_for_mut(&scope, &mint);
    bucket.committed = 10_000_000;

    cma.validate_and_update_collateral(&market, market_id, OrderSide::Bid, 5_000_000, false)
        .unwrap();
    {
        let bucket = cma.bucket_for_view(&scope, &mint).unwrap();
        assert_eq!(bucket.open_bid_qty, 5_000_000);
        // required margin: 5_000_000 * 100_000 / 1e8 * 1000 / 10_000 = 500
        let required = bucket
            .calc_required_margin(market.last_mark_price, market.im_bps, 5_000_000)
            .unwrap();
        assert_eq!(required, 500);
        let equity = bucket.calc_equity(market.last_mark_price).unwrap();
        assert!(equity >= required);
    }

    let first = cma
        .process_fill(market_id, OrderSide::Bid, 3_000_000, 100_000, &mint)
        .unwrap();
    assert_eq!(first.new_net_position, 3_000_000);
    assert_eq!(first.realized_pnl_banked, 0);
    {
        let bucket = cma.bucket_for_view(&scope, &mint).unwrap();
        assert_eq!(bucket.net_position, 3_000_000);
        assert_eq!(bucket.avg_entry_price, 100_000);
        assert_eq!(bucket.open_bid_qty, 2_000_000);
    }

    let second = cma
        .process_fill(market_id, OrderSide::Bid, 2_000_000, 100_000, &mint)
        .unwrap();
    assert_eq!(second.new_net_position, 5_000_000);
    {
        let bucket = cma.bucket_for_view(&scope, &mint).unwrap();
        assert_eq!(bucket.net_position, 5_000_000);
        assert_eq!(bucket.open_bid_qty, 0);
    }
}

#[test]
fn scenario_flip_with_realized_pnl() {
    // From net +100 at 50_000 with 150 asks open, fill Ask 150 at 51_000:
    // flip to -50 at 51_000; the 100 * 1_000 gain is below the 1e8 scale.
    let market_id = 3u64;
    let mint = key(101);
    let mut cma = CrossMarginAccountV1 {
        version: 2,
        _pad: [0; 128],
        user: key(2),
        balances: vec![],
        buckets: vec![],
        _pad2: [0; 8],
    };
    let scope = MarginScope::MarketIsolated(market_id);
    let bucket = cma.bucket_for_mut(&scope, &mint);
    bucket.committed = 2_000_000;
    bucket.net_position = 100;
    bucket.avg_entry_price = 50_000;
    bucket.open_ask_qty = 150;

    let result = cma
        .process_fill(market_id, OrderSide::Ask, 150, 51_000, &mint)
        .unwrap();
    assert_eq!(result.new_net_position, -50);
    assert_eq!(result.old_net_position, 100);
    assert_eq!(result.realized_pnl_banked, 0);

    let bucket = cma.bucket_for_view(&scope, &mint).unwrap();
    assert_eq!(bucket.net_position, -50);
    assert_eq!(bucket.avg_entry_price, 51_000);
    assert_eq!(bucket.committed, 2_000_000);
    assert_eq!(bucket.open_ask_qty, 0);
}

#[test]
fn scenario_loss_exceeding_committed_clamps_to_zero() {
    let market_id = 4u64;
    let mint = key(102);
    let mut cma = CrossMarginAccountV1 {
        version: 2,
        _pad: [0; 128],
        user: key(3),
        balances: vec![],
        buckets: vec![],
        _pad2: [0; 8],
    };
    let scope = MarginScope::MarketIsolated(market_id);
    let bucket = cma.bucket_for_mut(&scope, &mint);
    bucket.committed = 500_000;
    bucket.net_position = 10_000_000;
    bucket.avg_entry_price = 100_000_000_000;
    bucket.open_ask_qty = 10_000_000;

    let result = cma
        .process_fill(market_id, OrderSide::Ask, 10_000_000, 50_000_000_000, &mint)
        .unwrap();
    assert!(result.realized_pnl_banked < 0);
    assert_eq!(result.new_net_position, 0);

    let bucket = cma.bucket_for_view(&scope, &mint).unwrap();
    assert_eq!(bucket.committed, 0);
    assert_eq!(bucket.net_position, 0);
    assert_eq!(bucket.avg_entry_price, 0);
    assert_eq!(bucket.open_ask_qty, 0);
}

#[test]
fn scenario_cancel_saturates_reservations() {
    let market_id = 5u64;
    let mint = key(103);
    let mut cma = CrossMarginAccountV1 {
        version: 2,
        _pad: [0; 128],
        user: key(4),
        balances: vec![],
        buckets: vec![],
        _pad2: [0; 8],
    };
    let scope = MarginScope::MarketIsolated(market_id);
    let bucket = cma.bucket_for_mut(&scope, &mint);
    bucket.open_bid_qty = 100;
    bucket.open_ask_qty = 50;

    cma.update_collateral_on_cancel(market_id, &OrderSide::Bid, 200).unwrap();
    assert_eq!(cma.bucket_for_view(&scope, &mint).unwrap().open_bid_qty, 0);

    cma.update_collateral_on_cancel(market_id, &OrderSide::Ask, 100).unwrap();
    assert_eq!(cma.bucket_for_view(&scope, &mint).unwrap().open_ask_qty, 0);
}

#[test]
fn required_margin_is_monotone_in_usage() {
    let bucket = MarginBucket::new(MarginScope::MarketIsolated(1), key(105));
    let mut last = 0u64;
    for usage in [0u64, 1_000, 5_000_000, 20_000_000, 400_000_000] {
        let required = bucket.calc_required_margin(100_000, 1000, usage).unwrap();
        assert!(required >= last);
        last = required;
    }
}

#[test]
fn uncommittable_never_exceeds_committed_without_gains() {
    let mut bucket = MarginBucket::new(MarginScope::MarketIsolated(1), key(106));
    bucket.committed = 1_000_000;
    bucket.net_position = 5_000_000;
    bucket.avg_entry_price = 100_000;
    bucket.open_bid_qty = 1_000_000;
    bucket.open_ask_qty = 500_000;

    // At or below the entry price the position shows no unrealized gain.
    for mark in [100_000u64, 99_000, 50_000] {
        let uncommittable = bucket.calculate_uncommittable_amount(mark, 1000).unwrap();
        assert!(uncommittable <= bucket.committed);
    }
}
