use ember_core::OrderDetailStorage;
use ember_core::OrderDetailStorageError;
use ember_core::OrderPrice;
use ember_core::OrderSide;
use ember_core::OrderTombstone;
use ember_core::INITIAL_ORDER_CAPACITY;
use ember_core::ORDER_CAPACITY_INCREMENT;
use ember_core::ORDER_DETAILS_RECORD_ESTIMATE;

fn create_test_order_price() -> OrderPrice {
    OrderPrice::Limit(100_000)
}

#[test]
fn order_detail_storage_test_new_storage() {
    let storage = OrderDetailStorage::new();
    assert_eq!(storage.capacity, INITIAL_ORDER_CAPACITY);
    assert_eq!(storage.total_inserted, 0);
    assert_eq!(storage.orders.len(), INITIAL_ORDER_CAPACITY);
}

#[test]
fn test_insert_basic() {
    let mut storage = OrderDetailStorage::new();
    let current_size = 1000;
    let order_id = 12345u64;

    storage
        .insert_order(
            order_id,
            OrderSide::Bid,
            50_000,
            create_test_order_price(),
            current_size,
        )
        .unwrap();

    assert_eq!(storage.total_inserted, 1);

    let order = storage.get_order(order_id).unwrap();
    assert_eq!(order.order_id, order_id);
    assert_eq!(order.side, OrderSide::Bid);
    assert_eq!(order.qty, 50_000);
    assert!(matches!(order.tombstone, OrderTombstone::Open()));
}

#[test]
fn test_multiple_inserts() {
    let mut storage = OrderDetailStorage::new();
    let current_size = 5000;

    for i in 0..5 {
        let order_id = 1000 + i;
        storage
            .insert_order(
                order_id,
                if i % 2 == 0 { OrderSide::Bid } else { OrderSide::Ask },
                (i + 1) * 10_000,
                create_test_order_price(),
                current_size,
            )
            .unwrap();
    }

    assert_eq!(storage.total_inserted, 5);
    assert_eq!(storage.get_active_orders().len(), 5);

    for i in 0..5 {
        let order_id = 1000 + i as u64;
        let order = storage.get_order(order_id).unwrap();
        assert_eq!(order.order_id, order_id);
    }
}

#[test]
fn test_order_cancellation() {
    let mut storage = OrderDetailStorage::new();
    let current_size = 1000;
    let order_id = 5555u64;

    storage
        .insert_order(
            order_id,
            OrderSide::Bid,
            100_000,
            create_test_order_price(),
            current_size,
        )
        .unwrap();

    storage.cancel_order(order_id).unwrap();

    let order = storage.get_order(order_id).unwrap();
    assert!(matches!(order.tombstone, OrderTombstone::UserCancel()));
    assert_eq!(storage.get_active_orders().len(), 0);
}

#[test]
fn test_order_filling() {
    let mut storage = OrderDetailStorage::new();
    let current_size = 1000;
    let order_id = 7777u64;

    storage
        .insert_order(
            order_id,
            OrderSide::Ask,
            100_000,
            create_test_order_price(),
            current_size,
        )
        .unwrap();

    storage.fill_order(order_id, 30_000).unwrap();
    let order = storage.get_order(order_id).unwrap();
    assert_eq!(order.filled_qty, 30_000);
    assert!(matches!(order.tombstone, OrderTombstone::Open()));

    storage.fill_order(order_id, 70_000).unwrap();
    let order = storage.get_order(order_id).unwrap();
    assert_eq!(order.filled_qty, 100_000);
    assert!(matches!(order.tombstone, OrderTombstone::Filled()));
    assert_eq!(storage.get_active_orders().len(), 0);
}

#[test]
fn test_storage_growth() {
    let mut storage = OrderDetailStorage::new();
    let current_size = 50000;

    for i in 0..INITIAL_ORDER_CAPACITY {
        let order_id = 10000 + i as u64;
        storage
            .insert_order(
                order_id,
                OrderSide::Bid,
                (i + 1) as u64 * 1000,
                create_test_order_price(),
                current_size,
            )
            .unwrap();
    }

    assert_eq!(storage.capacity, INITIAL_ORDER_CAPACITY);

    let order_id = 20000u64;
    storage
        .insert_order(
            order_id,
            OrderSide::Ask,
            5000,
            create_test_order_price(),
            current_size,
        )
        .unwrap();

    assert_eq!(
        storage.capacity,
        INITIAL_ORDER_CAPACITY + ORDER_CAPACITY_INCREMENT
    );
    assert_eq!(storage.total_inserted, INITIAL_ORDER_CAPACITY + 1);
}

#[test]
fn test_invalid_order_id() {
    let storage = OrderDetailStorage::new();

    let result = storage.get_order(999);
    assert_eq!(result.err(), Some(OrderDetailStorageError::OrderNotFound));
}

#[test]
fn test_serialization_size() {
    let storage = OrderDetailStorage::new();
    let estimated = storage.estimated_serialized_size();
    assert!(estimated > 0);
    assert!(estimated < 10_000);
}

#[test]
fn test_needs_resize_logic() {
    let mut storage = OrderDetailStorage::new();
    assert!(!storage.needs_resize(0));
    assert!(!storage.needs_resize(usize::MAX));

    storage.total_inserted = storage.capacity;
    let per_order_size = ORDER_DETAILS_RECORD_ESTIMATE;
    let estimated_current_size = storage.estimated_serialized_size();

    let too_small = estimated_current_size + per_order_size * ORDER_CAPACITY_INCREMENT - 1;
    assert!(storage.needs_resize(too_small));

    let just_enough = estimated_current_size + per_order_size * ORDER_CAPACITY_INCREMENT;
    assert!(!storage.needs_resize(just_enough));
}

#[test]
fn test_find_order_index_with_hint_correct() {
    let mut storage = OrderDetailStorage::new();
    let current_size = 5000;

    let order_ids = [1001u64, 2002u64, 3003u64, 4004u64];
    for (i, &order_id) in order_ids.iter().enumerate() {
        storage
            .insert_order(
                order_id,
                OrderSide::Bid,
                (i + 1) as u64 * 1000,
                create_test_order_price(),
                current_size,
            )
            .unwrap();
    }

    for (expected_index, &order_id) in order_ids.iter().enumerate() {
        let found_index = storage
            .find_order_index_with_hint(order_id, expected_index as u32)
            .unwrap();
        assert_eq!(found_index, expected_index);
    }
}

#[test]
fn test_find_order_index_with_hint_incorrect() {
    let mut storage = OrderDetailStorage::new();
    let current_size = 5000;

    let order_ids = [1001u64, 2002u64, 3003u64, 4004u64];
    for (i, &order_id) in order_ids.iter().enumerate() {
        storage
            .insert_order(
                order_id,
                OrderSide::Bid,
                (i + 1) as u64 * 1000,
                create_test_order_price(),
                current_size,
            )
            .unwrap();
    }

    let found_index = storage.find_order_index_with_hint(2002u64, 0).unwrap();
    assert_eq!(found_index, 1);

    let found_index = storage.find_order_index_with_hint(1001u64, 3).unwrap();
    assert_eq!(found_index, 0);
}

#[test]
fn test_find_order_index_with_hint_out_of_bounds() {
    let mut storage = OrderDetailStorage::new();
    let current_size = 5000;

    let order_id = 1001u64;
    storage
        .insert_order(
            order_id,
            OrderSide::Bid,
            1000,
            create_test_order_price(),
            current_size,
        )
        .unwrap();

    let found_index = storage.find_order_index_with_hint(order_id, 999).unwrap();
    assert_eq!(found_index, 0);
}

#[test]
fn test_find_order_index_with_hint_nonexistent() {
    let mut storage = OrderDetailStorage::new();
    let current_size = 5000;

    storage
        .insert_order(
            1001u64,
            OrderSide::Bid,
            1000,
            create_test_order_price(),
            current_size,
        )
        .unwrap();

    let result = storage.find_order_index_with_hint(9999u64, 0);
    assert_eq!(result.err(), Some(OrderDetailStorageError::OrderNotFound));
}

#[test]
fn test_get_order_with_hint_correct() {
    let mut storage = OrderDetailStorage::new();
    let current_size = 5000;

    let order_id = 1234u64;
    storage
        .insert_order(
            order_id,
            OrderSide::Ask,
            5000,
            create_test_order_price(),
            current_size,
        )
        .unwrap();

    let order = storage.get_order_with_hint(order_id, 0).unwrap();
    assert_eq!(order.order_id, order_id);
    assert_eq!(order.side, OrderSide::Ask);
    assert_eq!(order.qty, 5000);
}

#[test]
fn test_get_order_with_hint_incorrect() {
    let mut storage = OrderDetailStorage::new();
    let current_size = 5000;

    storage
        .insert_order(
            1001u64,
            OrderSide::Bid,
            1000,
            create_test_order_price(),
            current_size,
        )
        .unwrap();
    storage
        .insert_order(
            2002u64,
            OrderSide::Ask,
            2000,
            create_test_order_price(),
            current_size,
        )
        .unwrap();

    let order = storage.get_order_with_hint(2002u64, 0).unwrap();
    assert_eq!(order.order_id, 2002u64);
    assert_eq!(order.side, OrderSide::Ask);
}

#[test]
fn test_update_tombstone_with_hint() {
    let mut storage = OrderDetailStorage::new();
    let current_size = 5000;

    let order_id = 1234u64;
    storage
        .insert_order(
            order_id,
            OrderSide::Bid,
            1000,
            create_test_order_price(),
            current_size,
        )
        .unwrap();

    let order = storage.get_order(order_id).unwrap();
    assert!(matches!(order.tombstone, OrderTombstone::Open()));

    storage
        .update_tombstone_with_hint(order_id, OrderTombstone::UserCancel(), 0)
        .unwrap();

    let order = storage.get_order(order_id).unwrap();
    assert!(matches!(order.tombstone, OrderTombstone::UserCancel()));
}

#[test]
fn test_update_tombstone_with_hint_incorrect() {
    let mut storage = OrderDetailStorage::new();
    let current_size = 5000;

    storage
        .insert_order(
            1001u64,
            OrderSide::Bid,
            1000,
            create_test_order_price(),
            current_size,
        )
        .unwrap();
    storage
        .insert_order(
            2002u64,
            OrderSide::Ask,
            2000,
            create_test_order_price(),
            current_size,
        )
        .unwrap();

    storage
        .update_tombstone_with_hint(2002u64, OrderTombstone::Filled(), 0)
        .unwrap();

    let order = storage.get_order(2002u64).unwrap();
    assert!(matches!(order.tombstone, OrderTombstone::Filled()));

    let order = storage.get_order(1001u64).unwrap();
    assert!(matches!(order.tombstone, OrderTombstone::Open()));
}

#[test]
fn test_duplicate_order_id_rejected() {
    let mut storage = OrderDetailStorage::new();
    storage
        .insert_order(77u64, OrderSide::Bid, 1000, create_test_order_price(), 6000)
        .unwrap();
    let result = storage.insert_order(77u64, OrderSide::Ask, 2000, create_test_order_price(), 6000);
    assert_eq!(result.err(), Some(OrderDetailStorageError::InvalidOrderId));
}

#[test]
fn test_insert_account_too_small() {
    let mut storage = OrderDetailStorage::new();
    for i in 0..INITIAL_ORDER_CAPACITY {
        storage
            .insert_order(
                1000 + i as u64,
                OrderSide::Bid,
                1000,
                create_test_order_price(),
                50_000,
            )
            .unwrap();
    }
    // The storage is full and the account cannot hold a growth step.
    let result = storage.insert_order(9_999u64, OrderSide::Bid, 1000, create_test_order_price(), 100);
    assert_eq!(result.err(), Some(OrderDetailStorageError::AccountTooSmall));
}
