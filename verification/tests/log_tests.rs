use ember_core::FillLogDetails;
use ember_core::CmaFillResult;
use ember_core::MarketOrderLog;
use ember_core::MarketOrderLogWrapper;
use ember_core::OrderDetails;
use ember_core::OrderLogEntry;
use ember_core::OrderPrice;
use ember_core::OrderSide;
use ember_core::OrderTombstone;
use ember_core::OrderUpdateType;
use ember_core::Pubkey;
use ember_core::ZeroCopyMarketOrderLog;
use ember_core::ZeroCopyOrderLogError;
use ember_core::LOG_ENTRY_STRIDE;
use ember_core::LOG_HEADER_SIZE;
use ember_core::ORDER_LOG_VERSION;

fn key(n: u64) -> Pubkey {
    Pubkey::new(n, 4, 5, 6)
}

fn create_representative_order_details() -> OrderDetails {
    OrderDetails {
        order_id: 1,
        side: OrderSide::Bid,
        qty: 1000000,
        filled_qty: 0,
        price: OrderPrice::Limit(100000),
        tombstone: OrderTombstone::Open(),
        ..Default::default()
    }
}

#[test]
fn test_market_order_log_new() {
    let log = MarketOrderLog::new(42, 0);
    assert_eq!(log.market_id, 42);
    assert_eq!(log.page, 0);
    assert_eq!(log.entry_count, 0);
    assert_eq!(log.entries.len(), 0);
}

#[test]
fn test_append_entry() {
    let mut log = MarketOrderLog::new(42, 0);
    let user = key(1);
    let order_details = OrderDetails {
        order_id: 12345,
        side: OrderSide::Bid,
        qty: 100,
        filled_qty: 0,
        price: OrderPrice::Limit(50000),
        tombstone: OrderTombstone::Open(),
        ..Default::default()
    };

    log.append_entry(
        user,
        12345,
        OrderUpdateType::OrderEntry,
        order_details,
        None,
        100000,
    )
    .unwrap();

    assert_eq!(log.entry_count, 1);
    assert_eq!(log.entries.len(), 1);
    assert_eq!(log.entries[0].user, user);
    assert_eq!(log.entries[0].order_id, 12345);
    assert_eq!(log.entries[0].update_type, OrderUpdateType::OrderEntry);
}

#[test]
fn test_get_stats() {
    let mut log = MarketOrderLog::new(42, 0);
    let user = key(2);
    let order_details = OrderDetails::default();

    log.append_entry(user, 1, OrderUpdateType::OrderEntry, order_details.clone(), None, 100000)
        .unwrap();
    log.append_entry(user, 1, OrderUpdateType::Fill, order_details.clone(), None, 100001)
        .unwrap();
    log.append_entry(user, 1, OrderUpdateType::Cancel, order_details.clone(), None, 100002)
        .unwrap();
    log.append_entry(user, 2, OrderUpdateType::OrderEntry, order_details.clone(), None, 100003)
        .unwrap();
    log.append_entry(user, 2, OrderUpdateType::Liquidation, order_details.clone(), None, 100004)
        .unwrap();

    let stats = log.get_stats();
    assert_eq!(stats.total_entries, 5);
    assert_eq!(stats.order_entries, 2);
    assert_eq!(stats.fills, 1);
    assert_eq!(stats.cancels, 1);
    assert_eq!(stats.liquidations, 1);
    assert_eq!(stats.close_positions, 0);
}

#[test]
fn market_order_log_test_append_entry_with_fill_details() {
    let mut log = MarketOrderLog::new(42, 0);
    let user = key(3);
    let order_details = OrderDetails::default();

    let fill_details = FillLogDetails {
        price: 50000,
        qty: 100,
        account: CmaFillResult {
            new_net_position: 100,
            old_net_position: 0,
            realized_pnl_banked: 1000,
        },
    };

    log.append_entry(
        user,
        12345,
        OrderUpdateType::Fill,
        order_details.clone(),
        Some(fill_details.clone()),
        100000,
    )
    .unwrap();

    assert_eq!(log.entry_count, 1);
    assert_eq!(log.entries.len(), 1);
    assert_eq!(log.entries[0].update_type, OrderUpdateType::Fill);
    assert_eq!(log.entries[0].fill_details.price, fill_details.price);
    assert_eq!(log.entries[0].fill_details.qty, fill_details.qty);
    assert_eq!(
        log.entries[0].fill_details.account.new_net_position,
        fill_details.account.new_net_position
    );
    assert_eq!(
        log.entries[0].fill_details.account.old_net_position,
        fill_details.account.old_net_position
    );
    assert_eq!(
        log.entries[0].fill_details.account.realized_pnl_banked,
        fill_details.account.realized_pnl_banked
    );

    log.append_entry(
        user,
        12346,
        OrderUpdateType::OrderEntry,
        order_details.clone(),
        None,
        100001,
    )
    .unwrap();

    assert_eq!(log.entry_count, 2);
    assert_eq!(log.entries[1].fill_details.price, 0);
    assert_eq!(log.entries[1].fill_details.qty, 0);
}

#[test]
fn market_order_log_test_append_user_collateral_update() {
    let mut log = MarketOrderLog::new(42, 0);
    let user = key(4);
    let collateral_snapshot = 1_000_000_000;
    let slot = 123456;

    log.append_user_collateral_update(user, collateral_snapshot, slot).unwrap();

    assert_eq!(log.entry_count, 1);
    assert_eq!(log.entries.len(), 1);

    let entry = &log.entries[0];
    assert_eq!(entry.user, user);
    assert_eq!(entry.update_type, OrderUpdateType::UserCollateralUpdate);
    assert_eq!(entry.slot, slot);
    assert_eq!(entry.order_id, 0);
    assert_eq!(entry.fill_details.qty, collateral_snapshot);
    assert_eq!(entry.fill_details.price, 0);
    assert_eq!(entry.order_details, OrderDetails::default());
}

#[test]
fn test_synth_user_collateral_update() {
    let user = key(5);
    let collateral_snapshot = 500_000_000;
    let slot = 789012;

    let entry = OrderLogEntry::synth_user_collateral_update(user, collateral_snapshot, slot);

    assert_eq!(entry.user, user);
    assert_eq!(entry.update_type, OrderUpdateType::UserCollateralUpdate);
    assert_eq!(entry.slot, slot);
    assert_eq!(entry.order_id, 0);
    assert_eq!(entry.fill_details.qty, collateral_snapshot);
    assert_eq!(entry.fill_details.price, 0);
    assert_eq!(entry.fill_details.account, CmaFillResult::default());
    assert_eq!(entry.order_details, OrderDetails::default());
}

#[test]
fn market_order_log_test_get_stats_with_collateral_updates() {
    let mut log = MarketOrderLog::new(42, 0);
    let user = key(6);
    let order_details = OrderDetails::default();

    log.append_entry(user, 1, OrderUpdateType::OrderEntry, order_details.clone(), None, 100000)
        .unwrap();
    log.append_user_collateral_update(user, 1_000_000_000, 100001).unwrap();
    log.append_entry(user, 1, OrderUpdateType::Fill, order_details.clone(), None, 100002)
        .unwrap();
    log.append_user_collateral_update(user, 2_000_000_000, 100003).unwrap();
    log.append_entry(user, 1, OrderUpdateType::Cancel, order_details.clone(), None, 100004)
        .unwrap();

    let stats = log.get_stats();
    assert_eq!(stats.total_entries, 5);
    assert_eq!(stats.order_entries, 1);
    assert_eq!(stats.fills, 1);
    assert_eq!(stats.cancels, 1);
    assert_eq!(stats.user_collateral_updates, 2);
    assert_eq!(stats.liquidations, 0);
    assert_eq!(stats.close_positions, 0);
}

#[test]
fn zero_copy_market_order_log_test_init_and_basic_operations() {
    let entry_size = ember_core::get_entry_serialized_size();
    assert_eq!(entry_size, LOG_ENTRY_STRIDE);
    let capacity = 4u64;
    let required_size = LOG_HEADER_SIZE + (capacity as usize * entry_size);

    let mut data = vec![0u8; required_size];
    ZeroCopyMarketOrderLog::init_in_buffer(&mut data, 42, 0, capacity).unwrap();

    let mut log = ZeroCopyMarketOrderLog::load(data).unwrap();
    let info = log.get_basic_info();
    assert_eq!(info.market_id, 42);
    assert_eq!(info.page, 0);
    assert_eq!(info.capacity, capacity);
    assert_eq!(info.entry_count, 0);
    assert_eq!(info.version, ORDER_LOG_VERSION);

    let user = key(7);
    let order_details = create_representative_order_details();

    log.append_entry(user, 12345, OrderUpdateType::OrderEntry, order_details, None, 100000)
        .unwrap();

    let info = log.get_basic_info();
    assert_eq!(info.entry_count, 1);

    let entries = log.iter_entries().unwrap();
    assert_eq!(entries.len(), 1);
    let entry = &entries[0];
    assert_eq!(entry.user, user);
    assert_eq!(entry.order_id, 12345);
    assert_eq!(entry.update_type, OrderUpdateType::OrderEntry);
}

#[test]
fn test_multiple_entries_and_stats() {
    let entry_size = ember_core::get_entry_serialized_size();
    let capacity = 10u64;
    let required_size = LOG_HEADER_SIZE + (capacity as usize * entry_size);

    let mut data = vec![0u8; required_size];
    ZeroCopyMarketOrderLog::init_in_buffer(&mut data, 42, 0, capacity).unwrap();
    let mut log = ZeroCopyMarketOrderLog::load(data).unwrap();

    let user = key(8);
    let order_details = create_representative_order_details();

    log.append_entry(user, 1, OrderUpdateType::OrderEntry, order_details.clone(), None, 100000)
        .unwrap();
    log.append_entry(user, 1, OrderUpdateType::Fill, order_details.clone(), None, 100001)
        .unwrap();
    log.append_entry(user, 1, OrderUpdateType::Cancel, order_details.clone(), None, 100002)
        .unwrap();
    log.append_entry(user, 2, OrderUpdateType::OrderEntry, order_details.clone(), None, 100003)
        .unwrap();
    log.append_entry(user, 2, OrderUpdateType::Liquidation, order_details.clone(), None, 100004)
        .unwrap();

    let stats = log.get_stats().unwrap();
    assert_eq!(stats.total_entries, 5);
    assert_eq!(stats.order_entries, 2);
    assert_eq!(stats.fills, 1);
    assert_eq!(stats.cancels, 1);
    assert_eq!(stats.liquidations, 1);
    assert_eq!(stats.close_positions, 0);
}

#[test]
fn test_log_full() {
    let entry_size = ember_core::get_entry_serialized_size();
    let capacity = 2u64;
    let required_size = LOG_HEADER_SIZE + (capacity as usize * entry_size);

    let mut data = vec![0u8; required_size];
    ZeroCopyMarketOrderLog::init_in_buffer(&mut data, 42, 0, capacity).unwrap();
    let mut log = ZeroCopyMarketOrderLog::load(data).unwrap();

    let user = key(9);
    let order_details = create_representative_order_details();

    for i in 0..capacity {
        log.append_entry(
            user,
            i,
            OrderUpdateType::OrderEntry,
            order_details.clone(),
            None,
            100000 + i,
        )
        .unwrap();
    }

    let result = log.append_entry(user, 999, OrderUpdateType::OrderEntry, order_details, None, 999999);
    assert!(result.is_err());
}

#[test]
fn test_range_iteration() {
    let entry_size = ember_core::get_entry_serialized_size();
    let capacity = 10u64;
    let required_size = LOG_HEADER_SIZE + (capacity as usize * entry_size);

    let mut data = vec![0u8; required_size];
    ZeroCopyMarketOrderLog::init_in_buffer(&mut data, 42, 0, capacity).unwrap();
    let mut log = ZeroCopyMarketOrderLog::load(data).unwrap();

    let user = key(10);
    let order_details = create_representative_order_details();

    for i in 0..5 {
        log.append_entry(
            user,
            i,
            OrderUpdateType::OrderEntry,
            order_details.clone(),
            None,
            100000 + i,
        )
        .unwrap();
    }

    let range_entries = log.iter_entries_range(1, 4).unwrap();
    assert_eq!(range_entries.len(), 3);

    for (i, entry) in range_entries.iter().enumerate() {
        assert_eq!(entry.order_id, (i + 1) as u64);
    }
}

#[test]
fn zero_copy_log_round_trips_entries_through_bytes() {
    let entry_size = ember_core::get_entry_serialized_size();
    let capacity = 3u64;
    let required_size = LOG_HEADER_SIZE + (capacity as usize * entry_size);

    let mut data = vec![0u8; required_size];
    ZeroCopyMarketOrderLog::init_in_buffer(&mut data, 9, 1, capacity).unwrap();
    let mut log = ZeroCopyMarketOrderLog::load(data).unwrap();
    let user = key(11);
    let order_details = create_representative_order_details();
    log.append_entry(user, 77, OrderUpdateType::Fill, order_details.clone(), None, 5)
        .unwrap();

    // Persist and reload: the entry comes back byte-identical.
    let bytes = log.into_bytes();
    let reloaded = ZeroCopyMarketOrderLog::load(bytes).unwrap();
    let entries = reloaded.iter_entries().unwrap();
    assert_eq!(entries.len(), 1);
    assert_eq!(entries[0].user, user);
    assert_eq!(entries[0].order_id, 77);
    assert_eq!(entries[0].order_details, order_details);
}

#[test]
fn test_wrapper_basic_operations() {
    let entry_size = ember_core::get_entry_serialized_size();
    let capacity = 10u64;
    let required_size = LOG_HEADER_SIZE + (capacity as usize * entry_size);

    let data = vec![0u8; required_size];
    let mut wrapper = MarketOrderLogWrapper::new(data, 42, 0, capacity).unwrap();

    assert_eq!(wrapper.market_id(), 42);
    assert_eq!(wrapper.page(), 0);
    assert_eq!(wrapper.entry_count(), 0);
    assert_eq!(wrapper.capacity(), capacity);
    assert!(!wrapper.is_full());
    assert_eq!(wrapper.utilization_percent(), 0);

    let user = key(12);
    let order_details = create_representative_order_details();

    wrapper
        .append_entry(user, 12345, OrderUpdateType::OrderEntry, order_details, None, 100000)
        .unwrap();

    assert_eq!(wrapper.entry_count(), 1);
    assert_eq!(wrapper.utilization_percent(), 10);

    let stats = wrapper.get_stats().unwrap();
    assert_eq!(stats.total_entries, 1);
    assert_eq!(stats.order_entries, 1);
}

#[test]
fn test_wrapper_load_existing() {
    let entry_size = ember_core::get_entry_serialized_size();
    let capacity = 5u64;
    let required_size = LOG_HEADER_SIZE + (capacity as usize * entry_size);

    let data = vec![0u8; required_size];
    let bytes = {
        let mut wrapper = MarketOrderLogWrapper::new(data, 99, 1, capacity).unwrap();
        let user = key(13);
        let order_details = create_representative_order_details();

        wrapper
            .append_entry(user, 1, OrderUpdateType::OrderEntry, order_details.clone(), None, 1000)
            .unwrap();
        wrapper
            .append_entry(user, 2, OrderUpdateType::Fill, order_details, None, 1001)
            .unwrap();
        wrapper.into_bytes()
    };

    let wrapper = MarketOrderLogWrapper::load(bytes).unwrap();
    assert_eq!(wrapper.market_id(), 99);
    assert_eq!(wrapper.page(), 1);
    assert_eq!(wrapper.entry_count(), 2);
    assert_eq!(wrapper.capacity(), capacity);

    let stats = wrapper.get_stats().unwrap();
    assert_eq!(stats.total_entries, 2);
    assert_eq!(stats.order_entries, 1);
    assert_eq!(stats.fills, 1);
}

#[test]
fn zc_log_load_rejects_wrong_version() {
    let capacity = 2u64;
    let mut data = vec![0u8; LOG_HEADER_SIZE + capacity as usize * LOG_ENTRY_STRIDE];
    ZeroCopyMarketOrderLog::init_in_buffer(&mut data, 9, 0, capacity).unwrap();
    data[0] = data[0].wrapping_add(1);
    assert_eq!(
        ZeroCopyMarketOrderLog::load(data).err(),
        Some(ZeroCopyOrderLogError::UnsupportedVersion)
    );
}

#[test]
fn zc_log_load_rejects_overlong_entry_count() {
    let capacity = 2u64;
    let mut data = vec![0u8; LOG_HEADER_SIZE + capacity as usize * LOG_ENTRY_STRIDE];
    ZeroCopyMarketOrderLog::init_in_buffer(&mut data, 9, 0, capacity).unwrap();
    // The entry-count word sits after version, padding, market id, page,
    // padding and capacity: offset 32.
    data[32] = capacity as u8 + 1;
    assert_eq!(
        ZeroCopyMarketOrderLog::load(data).err(),
        Some(ZeroCopyOrderLogError::CorruptedData)
    );
}

#[test]
fn zc_log_load_rejects_truncated_header() {
    let data = vec![0u8; LOG_HEADER_SIZE - 1];
    assert_eq!(
        ZeroCopyMarketOrderLog::load(data).err(),
        Some(ZeroCopyOrderLogError::AccountTooSmall)
    );
}
