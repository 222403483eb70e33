use ember_core::CmaFillResult;
use ember_core::MarketStateV1;
use ember_core::OrderFillResult;
use ember_core::OrderSide;
use ember_core::ProgramError;
use ember_core::Pubkey;

fn create_test_market_state() -> MarketStateV1 {
    MarketStateV1 {
        oracle: Pubkey::new(1, 2, 3, 4),
        tick_size: 1000,
        last_bid: 100_000,
        last_ask: 101_000,
        last_mark_price: 100_500,
        im_bps: 1000,
        mm_bps: 500,
        min_order_size: 1_000_000,
        base_token: Pubkey::new(5, 6, 7, 8),
        ..Default::default()
    }
}

#[test]
fn test_validate_order_conformance_valid_order() {
    let market = create_test_market_state();

    let result = market.validate_order_conformance(2_000_000, 100_000);

    assert!(result.is_ok());
}

#[test]
fn test_validate_order_conformance_below_min_size() {
    let market = create_test_market_state();

    let result = market.validate_order_conformance(500_000, 100_000);

    assert!(result.is_err());
    assert_eq!(result.unwrap_err(), ProgramError::InvalidArgument);
}

#[test]
fn test_validate_order_conformance_zero_price() {
    let market = create_test_market_state();

    let result = market.validate_order_conformance(2_000_000, 0);

    assert!(result.is_ok(), "Market orders with 0 price should be valid");
}

#[test]
fn test_validate_order_conformance_price_not_aligned() {
    let market = create_test_market_state();

    let result = market.validate_order_conformance(2_000_000, 100_500);

    assert!(result.is_err());
    assert_eq!(result.unwrap_err(), ProgramError::InvalidArgument);
}

#[test]
fn test_validate_order_conformance_max_order_size() {
    let mut market = create_test_market_state();
    market.max_order_size = 5_000_000;

    let result = market.validate_order_conformance(5_000_000, 100_000);
    assert!(result.is_ok());

    let result = market.validate_order_conformance(5_000_001, 100_000);
    assert!(result.is_err());
    assert_eq!(result.unwrap_err(), ProgramError::InvalidArgument);

    market.max_order_size = 0;
    let result = market.validate_order_conformance(1_000_000_000_000, 100_000);
    assert!(result.is_ok());
}

#[test]
fn test_validate_order_conformance_edge_cases() {
    let market = create_test_market_state();

    let result = market.validate_order_conformance(1_000_000, 101_000);
    assert!(result.is_ok());

    let result = market.validate_order_conformance(1_000_000_000, 999_000);
    assert!(result.is_ok());
}

#[test]
fn test_market_state_mid_price() {
    let market = create_test_market_state();
    assert_eq!(market.mid_price(), 100_500);

    let mut market_zero_bid = market.clone();
    market_zero_bid.last_bid = 0;
    assert_eq!(market_zero_bid.mid_price(), 0);

    let mut market_zero_ask = market.clone();
    market_zero_ask.last_ask = 0;
    assert_eq!(market_zero_ask.mid_price(), 0);
}

#[test]
fn test_market_state_spread() {
    let market = create_test_market_state();
    assert_eq!(market.spread(), 1_000);

    let mut market_zero_bid = market.clone();
    market_zero_bid.last_bid = 0;
    assert_eq!(market_zero_bid.spread(), 0);

    let mut market_zero_ask = market.clone();
    market_zero_ask.last_ask = 0;
    assert_eq!(market_zero_ask.spread(), 0);
}

#[test]
fn test_market_state_is_active() {
    let market = create_test_market_state();
    assert!(market.is_active());

    let mut market_zero_bid = market.clone();
    market_zero_bid.last_bid = 0;
    assert!(!market_zero_bid.is_active());

    let mut market_zero_ask = market.clone();
    market_zero_ask.last_ask = 0;
    assert!(!market_zero_ask.is_active());

    let mut market_inactive = market.clone();
    market_inactive.last_bid = 0;
    market_inactive.last_ask = 0;
    assert!(!market_inactive.is_active());
}

#[test]
fn test_validate_order_conformance_various_tick_sizes() {
    let mut market = create_test_market_state();
    market.tick_size = 100;

    let result = market.validate_order_conformance(2_000_000, 100_100);
    assert!(result.is_ok());

    let result = market.validate_order_conformance(2_000_000, 100_150);
    assert!(result.is_err());
}

#[test]
fn test_validate_order_conformance_market_orders() {
    let market = create_test_market_state();

    let result = market.validate_order_conformance(5_000_000, 0);
    assert!(result.is_ok(), "Market orders with price=0 should be valid");

    let result = market.validate_order_conformance(500_000, 0);
    assert!(result.is_err(), "Market orders must still respect minimum size");
    assert_eq!(result.unwrap_err(), ProgramError::InvalidArgument);
}

#[test]
fn test_validate_order_conformance_market_order_tick_size() {
    let mut market = create_test_market_state();
    market.tick_size = 100;

    let result = market.validate_order_conformance(2_000_000, 0);
    assert!(result.is_ok(), "Market orders should bypass tick size validation");

    let result = market.validate_order_conformance(100_000_000, 0);
    assert!(result.is_ok(), "Large market orders should be valid");
}

#[test]
fn test_validate_order_conformance_limit_vs_market() {
    let market = create_test_market_state();

    let result = market.validate_order_conformance(2_000_000, 100_000);
    assert!(result.is_ok(), "Limit order with valid price should succeed");

    let result = market.validate_order_conformance(2_000_000, 0);
    assert!(result.is_ok(), "Market order with price=0 should succeed");

    let result = market.validate_order_conformance(2_000_000, 100_123);
    assert!(result.is_err(), "Limit order with misaligned price should fail");
}

#[test]
fn test_market_process_fill_updates_oi_and_clearing() {
    let mut market = create_test_market_state();
    market.max_oi_size = 10_000_000;

    let fill = OrderFillResult {
        filled_qty: 1_000_000,
        weighted_avg_price: 100_000,
        is_fully_filled: false,
        side: OrderSide::Bid,
    };
    let cma = CmaFillResult {
        new_net_position: 1_000_000,
        old_net_position: 0,
        realized_pnl_banked: 0,
    };
    market.process_fill(&fill, &cma).unwrap();

    assert_eq!(market.last_traded_price, 100_000);
    assert_eq!(market.open_interest, 1_000_000);
    assert_eq!(market.clearing_net_pos, -1_000_000);
    assert_eq!(market.clearing_entry_price, 100_000);
}

#[test]
fn test_market_process_fill_rejects_oi_growth_past_cap() {
    let mut market = create_test_market_state();
    market.max_oi_size = 500_000;

    let fill = OrderFillResult {
        filled_qty: 1_000_000,
        weighted_avg_price: 100_000,
        is_fully_filled: false,
        side: OrderSide::Bid,
    };
    let cma = CmaFillResult {
        new_net_position: 1_000_000,
        old_net_position: 0,
        realized_pnl_banked: 0,
    };
    let result = market.process_fill(&fill, &cma);
    assert_eq!(result.unwrap_err(), ProgramError::InvalidArgument);
}

#[test]
fn test_market_process_fill_clearing_resets_entry_on_flat() {
    let mut market = create_test_market_state();
    market.max_oi_size = 10_000_000;
    market.clearing_net_pos = -1_000_000;
    market.clearing_entry_price = 100_000;

    // The user sells back; the clearing buys back to flat.
    let fill = OrderFillResult {
        filled_qty: 1_000_000,
        weighted_avg_price: 100_000,
        is_fully_filled: true,
        side: OrderSide::Ask,
    };
    let cma = CmaFillResult {
        new_net_position: 0,
        old_net_position: 1_000_000,
        realized_pnl_banked: 0,
    };
    market.process_fill(&fill, &cma).unwrap();

    assert_eq!(market.clearing_net_pos, 0);
    assert_eq!(market.clearing_entry_price, 0);
}
