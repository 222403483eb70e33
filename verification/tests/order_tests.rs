use ember_core::enc_order_details;
use ember_core::max_order_details_borsh_size;
use ember_core::BuilderTag;
use ember_core::EventHistory;
use ember_core::OrderDetails;
use ember_core::OrderMarker;
use ember_core::OrderPrice;
use ember_core::OrderSide;
use ember_core::OrderTombstone;
use ember_core::PegPriceReference;
use ember_core::Pubkey;
use ember_core::TimeInForce;
use ember_core::TriggerCondition;
use ember_core::TriggerEntrySize;
use ember_core::ORDER_DETAILS_RESERVED_PADDING;

fn encoded_len(order: &OrderDetails) -> usize {
    let mut buf: Vec<u8> = Vec::new();
    enc_order_details(&mut buf, order);
    buf.len()
}

#[test]
fn padding_covers_max_payload() {
    let default_len = encoded_len(&OrderDetails::default());
    let max_len = max_order_details_borsh_size();
    assert!(
        max_len - default_len <= ORDER_DETAILS_RESERVED_PADDING,
        "Reserved padding ({}) should cover max extra payload ({}).",
        ORDER_DETAILS_RESERVED_PADDING,
        (max_len - default_len)
    );
}

#[test]
fn test_order_marker_new() {
    let user = Pubkey::new(11, 22, 33, 44);
    let order_id = 12345;

    let marker = OrderMarker::new(user, order_id);

    assert_eq!(marker.user, user);
    assert_eq!(marker.order_id, order_id);
    assert_eq!(marker.order_version, 1);
    assert_eq!(marker.order_page, 0);
    assert_eq!(marker._pad1, [0; 2]);
}

#[test]
fn test_tombstone_is_alive() {
    assert!(OrderTombstone::Empty().is_alive());
    assert!(OrderTombstone::PreTrigger().is_alive());
    assert!(OrderTombstone::Open().is_alive());

    assert!(!OrderTombstone::Filled().is_alive());
    assert!(!OrderTombstone::UserCancel().is_alive());
    assert!(!OrderTombstone::TriggerCancelCond1().is_alive());
    assert!(!OrderTombstone::TriggerCancelCond2().is_alive());
    assert!(!OrderTombstone::TriggerCancelCond3().is_alive());
    assert!(!OrderTombstone::LiquidatorMargin().is_alive());
    assert!(!OrderTombstone::AutoDeleverage().is_alive());
    assert!(!OrderTombstone::SystemHalt().is_alive());
    assert!(!OrderTombstone::Breaker().is_alive());
    assert!(!OrderTombstone::PositionLimits().is_alive());
    assert!(!OrderTombstone::MarketClosed().is_alive());
    assert!(!OrderTombstone::SelfTrade().is_alive());
    assert!(!OrderTombstone::TickRejected().is_alive());
    assert!(!OrderTombstone::PriceBandRejected().is_alive());
    assert!(!OrderTombstone::MinTradeRejected().is_alive());
    assert!(!OrderTombstone::OpenInterestCap().is_alive());
    assert!(!OrderTombstone::MaxPositionRejected().is_alive());
    assert!(!OrderTombstone::MaxOrderSizeRejected().is_alive());
    assert!(!OrderTombstone::InvalidPrice().is_alive());
    assert!(!OrderTombstone::InvalidQty().is_alive());
    assert!(!OrderTombstone::InvalidCond().is_alive());
    assert!(!OrderTombstone::ForceExpire().is_alive());
    assert!(!OrderTombstone::Admin().is_alive());
    assert!(!OrderTombstone::Error().is_alive());
}

#[test]
fn test_tombstone_is_valid_cancellation() {
    assert!(!OrderTombstone::Empty().is_valid_cancellation());
    assert!(!OrderTombstone::PreTrigger().is_valid_cancellation());
    assert!(!OrderTombstone::Open().is_valid_cancellation());

    assert!(OrderTombstone::Filled().is_valid_cancellation());
    assert!(OrderTombstone::UserCancel().is_valid_cancellation());
    assert!(OrderTombstone::LiquidatorMargin().is_valid_cancellation());
    assert!(OrderTombstone::SystemHalt().is_valid_cancellation());
    assert!(OrderTombstone::Admin().is_valid_cancellation());
    assert!(OrderTombstone::ForceExpire().is_valid_cancellation());
}

#[test]
fn test_order_marker_default() {
    let marker = OrderMarker::default();

    assert_eq!(marker.user, Pubkey::default());
    assert_eq!(marker.order_id, 0);
    assert_eq!(marker.order_version, 1);
    assert_eq!(marker.order_page, 0);
    assert_eq!(marker._pad1, [0; 2]);
}

#[test]
fn test_order_details_new_gtc() {
    let order_id = 12345u64;
    let order_details = OrderDetails::new(
        order_id,
        OrderSide::Bid,
        1_000_000,
        OrderPrice::Limit(100_000),
        TimeInForce::GTC,
    );

    assert_eq!(order_details.order_id, order_id);
    assert_eq!(order_details.side, OrderSide::Bid);
    assert_eq!(order_details.qty, 1_000_000);
    assert_eq!(order_details.filled_qty, 0);
    assert_eq!(order_details.price, OrderPrice::Limit(100_000));
    assert_eq!(order_details.cancel_cond, TriggerCondition::Off());
    assert_eq!(order_details.tombstone, OrderTombstone::Open());
}

#[test]
fn test_order_details_new_ioc() {
    let order_id = 22222u64;
    let order_details = OrderDetails::new(
        order_id,
        OrderSide::Ask,
        2_000_000,
        OrderPrice::Limit(101_000),
        TimeInForce::IOC,
    );

    assert_eq!(order_details.side, OrderSide::Ask);
    assert_eq!(order_details.qty, 2_000_000);
    assert_eq!(
        order_details.cancel_cond,
        TriggerCondition::ImmediateOrCancelFail()
    );
    assert_eq!(order_details.tombstone, OrderTombstone::Open());
}

#[test]
fn test_order_details_new_fok() {
    let order_id = 33333u64;
    let order_details = OrderDetails::new(
        order_id,
        OrderSide::Bid,
        5_000_000,
        OrderPrice::Limit(99_000),
        TimeInForce::FOK,
    );

    assert_eq!(order_details.side, OrderSide::Bid);
    assert_eq!(order_details.qty, 5_000_000);
    assert_eq!(order_details.cancel_cond, TriggerCondition::FillOrKillFail());
    assert_eq!(order_details.tombstone, OrderTombstone::Open());
}

#[test]
fn test_order_details_new_alo() {
    let order_id = 44444u64;
    let order_details = OrderDetails::new(
        order_id,
        OrderSide::Ask,
        3_000_000,
        OrderPrice::Limit(102_000),
        TimeInForce::ALO,
    );

    assert_eq!(order_details.side, OrderSide::Ask);
    assert_eq!(order_details.qty, 3_000_000);
    assert_eq!(
        order_details.cancel_cond,
        TriggerCondition::AddLiquidityOnlyFail()
    );
    assert_eq!(order_details.tombstone, OrderTombstone::Open());
}

#[test]
fn test_order_details_new_gtt() {
    let order_id = 55555u64;
    let expiry_time = 1640995200;
    let order_details = OrderDetails::new(
        order_id,
        OrderSide::Bid,
        4_000_000,
        OrderPrice::Limit(98_000),
        TimeInForce::GTT(expiry_time),
    );

    assert_eq!(order_details.side, OrderSide::Bid);
    assert_eq!(order_details.qty, 4_000_000);
    assert_eq!(order_details.cancel_cond, TriggerCondition::Time(expiry_time));
    assert_eq!(order_details.tombstone, OrderTombstone::Open());
}

#[test]
fn test_order_details_new_market_price() {
    let order_id = 66666u64;
    let order_details = OrderDetails::new(
        order_id,
        OrderSide::Ask,
        1_500_000,
        OrderPrice::Market(),
        TimeInForce::IOC,
    );

    assert_eq!(order_details.side, OrderSide::Ask);
    assert_eq!(order_details.qty, 1_500_000);
    assert_eq!(order_details.price, OrderPrice::Market());
    assert_eq!(
        order_details.cancel_cond,
        TriggerCondition::ImmediateOrCancelFail()
    );
}

#[test]
fn test_order_details_new_pegged_price() {
    let order_id = 77777u64;
    let order_details = OrderDetails::new(
        order_id,
        OrderSide::Bid,
        2_500_000,
        OrderPrice::PeggedOffset(-1000, PegPriceReference::OraclePrice()),
        TimeInForce::GTC,
    );

    assert_eq!(order_details.side, OrderSide::Bid);
    assert_eq!(order_details.qty, 2_500_000);
    assert_eq!(
        order_details.price,
        OrderPrice::PeggedOffset(-1000, PegPriceReference::OraclePrice())
    );
    assert_eq!(order_details.cancel_cond, TriggerCondition::Off());
}

#[test]
fn test_order_details_default_fields() {
    let order_id = 88888u64;
    let order_details = OrderDetails::new(
        order_id,
        OrderSide::Bid,
        1_000_000,
        OrderPrice::Limit(100_000),
        TimeInForce::GTC,
    );

    assert_eq!(order_details.filled_qty, 0);
    assert_eq!(order_details.entry_cond, TriggerCondition::Off());
    assert_eq!(
        order_details.entry_cond_size,
        TriggerEntrySize::PositionSizePercent(0)
    );
    assert_eq!(order_details.cancel_cond_2, TriggerCondition::Off());
    assert_eq!(order_details.cancel_cond_3, TriggerCondition::Off());
    assert_eq!(order_details.tombstone, OrderTombstone::Open());
    assert_eq!(order_details.event_history, EventHistory::default());
    assert_eq!(order_details.builder_tag, BuilderTag::default());
    assert_eq!(order_details._pad1, [0; 64]);
    assert_eq!(order_details._pad2, [0; 32]);
    assert_eq!(order_details._pad3, [0; 24]);
}

#[test]
fn test_order_details_default() {
    let order_details = OrderDetails::default();

    assert_eq!(order_details.side, OrderSide::Bid);
    assert_eq!(order_details.qty, 0);
    assert_eq!(order_details.filled_qty, 0);
    assert_eq!(order_details.price, OrderPrice::Market());
    assert_eq!(order_details.tombstone, OrderTombstone::Empty());
}

#[test]
fn test_time_in_force_default() {
    let tif = TimeInForce::default();
    assert_eq!(tif, TimeInForce::GTC);
}

#[test]
fn test_order_side_values() {
    assert_eq!(OrderSide::Bid as u8, 0);
    assert_eq!(OrderSide::Ask as u8, 1);
}

#[test]
fn test_order_side_copy_clone() {
    let side1 = OrderSide::Bid;
    let side2 = side1;
    let side3 = side1;

    assert_eq!(side1, side2);
    assert_eq!(side1, side3);
    assert_eq!(side2, side3);
}

#[test]
fn test_event_history_default() {
    let history = EventHistory::default();

    assert_eq!(history.entry_time, 0);
    assert_eq!(history.trigger_time, 0);
    assert_eq!(history.first_fill_time, 0);
    assert_eq!(history.last_fill_time, 0);
    assert!(!history.did_rest);
    assert_eq!(history.dead_time, 0);
    assert_eq!(history.take_volume, 0);
    assert_eq!(history.priced_make_volume, 0);
    assert_eq!(history.pegged_make_volume, 0);
    assert_eq!(history.improve_volume, 0);
    assert_eq!(history.avg_fill_price, 0);
    assert_eq!(history.fees_booked, 0);
}

#[test]
fn test_builder_tag_default() {
    let tag = BuilderTag::default();

    assert_eq!(tag.builder_id, 0);
    assert_eq!(tag.referrer_id, 0);
    assert_eq!(tag._pad1, [0; 32]);
}

#[test]
fn test_all_time_in_force_variants() {
    let variants = vec![
        TimeInForce::IOC,
        TimeInForce::FOK,
        TimeInForce::GTC,
        TimeInForce::ALO,
        TimeInForce::GTT(1640995200),
    ];

    for (i, tif) in variants.into_iter().enumerate() {
        let order_id = 90000 + i as u64;
        let order_details = OrderDetails::new(
            order_id,
            OrderSide::Bid,
            1_000_000,
            OrderPrice::Limit(100_000),
            tif.clone(),
        );

        match tif {
            TimeInForce::IOC => assert_eq!(
                order_details.cancel_cond,
                TriggerCondition::ImmediateOrCancelFail()
            ),
            TimeInForce::FOK => assert_eq!(
                order_details.cancel_cond,
                TriggerCondition::FillOrKillFail()
            ),
            TimeInForce::GTC => assert_eq!(order_details.cancel_cond, TriggerCondition::Off()),
            TimeInForce::ALO => assert_eq!(
                order_details.cancel_cond,
                TriggerCondition::AddLiquidityOnlyFail()
            ),
            TimeInForce::GTT(time) => {
                assert_eq!(order_details.cancel_cond, TriggerCondition::Time(time))
            }
        }
    }
}

#[test]
fn test_order_details_unfilled_qty() {
    let order_id = 99999u64;
    let mut order = OrderDetails::new(
        order_id,
        OrderSide::Bid,
        1_000_000,
        OrderPrice::Limit(100_000),
        TimeInForce::GTC,
    );

    assert_eq!(order.unfilled_qty(), 1_000_000);

    order.filled_qty = 300_000;
    assert_eq!(order.unfilled_qty(), 700_000);

    order.filled_qty = 1_000_000;
    assert_eq!(order.unfilled_qty(), 0);

    order.filled_qty = 1_200_000;
    assert_eq!(order.unfilled_qty(), 0);
}

#[test]
fn test_order_details_process_cancellation_success() {
    let order_id = 111111u64;
    let mut order = OrderDetails::new(
        order_id,
        OrderSide::Ask,
        1_000_000,
        OrderPrice::Limit(100_000),
        TimeInForce::GTC,
    );

    let mut order2 = order.clone();

    let result = order.process_cancellation(&OrderTombstone::UserCancel(), 0);
    assert!(result.is_ok());
    let (unfilled_qty, side) = result.unwrap();
    assert_eq!(unfilled_qty, 1_000_000);
    assert_eq!(side, OrderSide::Ask);

    order2.filled_qty = 400_000;
    let result2 = order2.process_cancellation(&OrderTombstone::Admin(), 0);
    assert!(result2.is_ok());
    let (unfilled_qty2, side2) = result2.unwrap();
    assert_eq!(unfilled_qty2, 600_000);
    assert_eq!(side2, OrderSide::Ask);
}

#[test]
fn test_order_details_process_cancellation_already_dead() {
    let order_id = 222222u64;
    let mut order = OrderDetails::new(
        order_id,
        OrderSide::Bid,
        1_000_000,
        OrderPrice::Limit(100_000),
        TimeInForce::GTC,
    );

    order.tombstone = OrderTombstone::UserCancel();

    let result = order.process_cancellation(&OrderTombstone::Admin(), 0);
    assert!(result.is_err());
    assert_eq!(result.unwrap_err(), "Order is already dead");

    order.tombstone = OrderTombstone::Filled();
    let result2 = order.process_cancellation(&OrderTombstone::UserCancel(), 0);
    assert!(result2.is_err());
    assert_eq!(result2.unwrap_err(), "Order is already dead");
}

#[test]
fn test_order_details_process_cancellation_invalid_tombstone() {
    let order_id = 333333u64;
    let mut order = OrderDetails::new(
        order_id,
        OrderSide::Ask,
        1_000_000,
        OrderPrice::Limit(100_000),
        TimeInForce::GTC,
    );

    let result = order.process_cancellation(&OrderTombstone::Open(), 0);
    assert!(result.is_err());
    assert_eq!(result.unwrap_err(), "Invalid cancellation tombstone");

    let result2 = order.process_cancellation(&OrderTombstone::PreTrigger(), 0);
    assert!(result2.is_err());
    assert_eq!(result2.unwrap_err(), "Invalid cancellation tombstone");

    let result3 = order.process_cancellation(&OrderTombstone::Empty(), 0);
    assert!(result3.is_err());
    assert_eq!(result3.unwrap_err(), "Invalid cancellation tombstone");
}

#[test]
fn test_order_details_process_fill_first_fill() {
    let order_id = 444444u64;
    let mut order = OrderDetails::new(
        order_id,
        OrderSide::Bid,
        1_000_000,
        OrderPrice::Limit(100_000),
        TimeInForce::GTC,
    );

    let result = order.process_fill(300_000, 99_500, 0);
    assert!(result.is_ok());

    let fill_result = result.unwrap();
    assert_eq!(fill_result.filled_qty, 300_000);
    assert_eq!(fill_result.weighted_avg_price, 99_500);
    assert!(!fill_result.is_fully_filled);
    assert_eq!(fill_result.side, OrderSide::Bid);

    assert_eq!(order.filled_qty, 300_000);
    assert_eq!(order.event_history.avg_fill_price, 99_500);
    assert_eq!(order.price, OrderPrice::Limit(100_000));
    assert_eq!(order.qty, 1_000_000);
    assert_eq!(order.tombstone, OrderTombstone::Open());
}

#[test]
fn test_order_details_process_fill_multiple_fills() {
    let order_id = 555555u64;
    let mut order = OrderDetails::new(
        order_id,
        OrderSide::Ask,
        1_000_000,
        OrderPrice::Limit(100_000),
        TimeInForce::GTC,
    );

    let result1 = order.process_fill(400_000, 100_200, 0);
    assert!(result1.is_ok());
    assert_eq!(order.filled_qty, 400_000);
    assert_eq!(order.event_history.avg_fill_price, 100_200);

    let result2 = order.process_fill(200_000, 100_500, 0);
    assert!(result2.is_ok());

    let fill_result = result2.unwrap();
    assert_eq!(fill_result.filled_qty, 200_000);
    assert_eq!(order.event_history.avg_fill_price, 100_300);
    assert_eq!(fill_result.weighted_avg_price, 100_300);
    assert!(!fill_result.is_fully_filled);

    assert_eq!(order.filled_qty, 600_000);
    assert_eq!(order.qty, 1_000_000);
    assert_eq!(order.price, OrderPrice::Limit(100_000));
}

#[test]
fn test_order_details_process_fill_fully_filled() {
    let order_id = 666666u64;
    let mut order = OrderDetails::new(
        order_id,
        OrderSide::Bid,
        500_000,
        OrderPrice::Limit(100_000),
        TimeInForce::GTC,
    );

    let result = order.process_fill(500_000, 99_800, 0);
    assert!(result.is_ok());

    let fill_result = result.unwrap();
    assert_eq!(fill_result.filled_qty, 500_000);
    assert_eq!(fill_result.weighted_avg_price, 99_800);
    assert!(fill_result.is_fully_filled);
    assert_eq!(fill_result.side, OrderSide::Bid);

    assert_eq!(order.filled_qty, 500_000);
    assert_eq!(order.tombstone, OrderTombstone::Filled());
}

#[test]
fn test_order_details_process_fill_overfill() {
    let order_id = 777777u64;
    let mut order = OrderDetails::new(
        order_id,
        OrderSide::Ask,
        1_000_000,
        OrderPrice::Limit(100_000),
        TimeInForce::GTC,
    );

    order.filled_qty = 700_000;

    let result = order.process_fill(400_000, 100_100, 0);
    assert!(result.is_err());
    assert_eq!(
        result.unwrap_err(),
        "Fill quantity exceeds remaining order quantity"
    );

    assert_eq!(order.filled_qty, 700_000);
}

#[test]
fn test_order_details_process_fill_dead_order() {
    let order_id = 888888u64;
    let mut order = OrderDetails::new(
        order_id,
        OrderSide::Bid,
        1_000_000,
        OrderPrice::Limit(100_000),
        TimeInForce::GTC,
    );

    order.tombstone = OrderTombstone::UserCancel();

    let result = order.process_fill(100_000, 99_900, 0);
    assert!(result.is_err());
    assert_eq!(result.unwrap_err(), "Cannot fill a dead order");
}

#[test]
fn test_process_fill_sets_event_times() {
    let order_id = 999999u64;
    let mut order = OrderDetails::new(
        order_id,
        OrderSide::Bid,
        1_000_000,
        OrderPrice::Limit(100_000),
        TimeInForce::GTC,
    );

    let result1 = order.process_fill(300_000, 99_500, 1000);
    assert!(result1.is_ok());

    assert_eq!(order.event_history.first_fill_time, 1000);
    assert_eq!(order.event_history.last_fill_time, 1000);

    let result2 = order.process_fill(300_000, 99_600, 2000);
    assert!(result2.is_ok());

    assert_eq!(order.event_history.first_fill_time, 1000);
    assert_eq!(order.event_history.last_fill_time, 2000);

    let result3 = order.process_fill(400_000, 99_700, 3000);
    assert!(result3.is_ok());

    assert_eq!(order.event_history.first_fill_time, 1000);
    assert_eq!(order.event_history.last_fill_time, 3000);
}

#[test]
fn test_process_cancellation_sets_dead_time() {
    let order_id = 888888u64;
    let mut order = OrderDetails::new(
        order_id,
        OrderSide::Ask,
        1_000_000,
        OrderPrice::Limit(100_000),
        TimeInForce::GTC,
    );

    order.event_history.entry_time = 500;

    let result = order.process_cancellation(&OrderTombstone::UserCancel(), 1500);
    assert!(result.is_ok());

    assert_eq!(order.event_history.dead_time, 1500);

    assert_eq!(order.tombstone, OrderTombstone::UserCancel());
}
