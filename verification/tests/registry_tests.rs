use ember_core::get_marker_serialized_size;
use ember_core::OrderMarker;
use ember_core::OrderStorage;
use ember_core::OrderStorageError;
use ember_core::Pubkey;
use ember_core::SafeZeroCopyOrderStorage;
use ember_core::ZeroCopyStorageError;
use ember_core::SlotEntry;
use ember_core::MARKER_ENCODED_SIZE;
use ember_core::REG_HEADER_SIZE;
use ember_core::SLOT_SIZE;
use ember_core::STORAGE_VERSION;

fn key(n: u64) -> Pubkey {
    Pubkey::new(n, 21, 22, 23)
}

fn create_test_order(user: Pubkey, order_id: u64) -> OrderMarker {
    OrderMarker {
        user,
        order_id,
        order_version: 1,
        order_page: 100,
        _pad1: [0; 2],
    }
}

#[test]
fn order_storage_test_new_storage() {
    let storage = OrderStorage::new(100);
    assert_eq!(storage.capacity, 100);
    assert_eq!(storage.count, 0);
    assert_eq!(storage.free_slots.len(), 0);
    assert_eq!(storage.next_free_slot, 0);
}

#[test]
fn test_insert_and_find() {
    let mut storage = OrderStorage::new(10);
    let user = key(1);
    let order = create_test_order(user, 123);

    let index = storage.insert(order.clone()).unwrap();
    assert_eq!(storage.count, 1);

    let found_index = storage.find_by_owner_and_id(&user, 123, None).unwrap();
    assert_eq!(index, found_index);
}

#[test]
fn test_remove() {
    let mut storage = OrderStorage::new(10);
    let user = key(2);
    let order = create_test_order(user, 123);

    storage.insert(order.clone()).unwrap();
    assert_eq!(storage.count, 1);

    let removed = storage.remove(&user, 123, None).unwrap();
    assert_eq!(removed.order_id, 123);
    assert_eq!(storage.count, 0);

    assert!(storage.find_by_owner_and_id(&user, 123, None).is_none());
}

#[test]
fn test_hint_lookup() {
    let mut storage = OrderStorage::new(10);
    let user = key(3);
    let order = create_test_order(user, 123);

    let index = storage.insert(order).unwrap();

    let found = storage.find_by_owner_and_id(&user, 123, Some(index));
    assert_eq!(found, Some(index));

    let found = storage.find_by_owner_and_id(&user, 123, Some(999));
    assert_eq!(found, Some(index));
}

#[test]
fn test_resize() {
    let mut storage = OrderStorage::new(10);
    assert_eq!(storage.capacity, 10);

    storage.resize(20).unwrap();
    assert_eq!(storage.capacity, 20);

    let result = storage.resize(5);
    assert_eq!(result, Err(OrderStorageError::InvalidCapacity));
}

#[test]
fn order_storage_test_storage_full() {
    let mut storage = OrderStorage::new(2);
    let user1 = key(4);
    let user2 = key(5);
    let user3 = key(6);

    storage.insert(create_test_order(user1, 1)).unwrap();
    storage.insert(create_test_order(user2, 2)).unwrap();

    let result = storage.insert(create_test_order(user3, 3));
    assert_eq!(result, Err(OrderStorageError::StorageFull));
}

#[test]
fn reuses_freed_slots() {
    let mut storage = OrderStorage::new(2);
    let user = key(7);
    let idx = storage.insert(create_test_order(user, 1)).unwrap();
    storage.insert(create_test_order(user, 2)).unwrap();
    storage.remove(&user, 1, None).unwrap();
    let idx2 = storage.insert(create_test_order(user, 3)).unwrap();
    assert_eq!(idx, idx2);
    assert_eq!(storage.count, 2);
}

#[test]
fn safe_zero_copy_order_storage_test_init_and_basic_operations() {
    let marker_size = get_marker_serialized_size();
    assert_eq!(marker_size, MARKER_ENCODED_SIZE);
    let slot_size = SlotEntry::slot_size(marker_size);
    assert_eq!(slot_size, SLOT_SIZE);
    let capacity = 4u64;
    let required_size = REG_HEADER_SIZE + (capacity as usize * slot_size);

    let mut data = vec![0u8; required_size];
    SafeZeroCopyOrderStorage::init_in_buffer(&mut data, capacity).unwrap();

    let mut storage = SafeZeroCopyOrderStorage::load(data).unwrap();
    let stats = storage.stats().unwrap();
    assert_eq!(stats.capacity, capacity);
    assert_eq!(stats.count, 0);
    assert_eq!(stats.version, STORAGE_VERSION);

    let user = key(8);
    let mut marker = OrderMarker::default();
    marker.user = user;
    marker.order_id = 42;

    let slot_idx = storage.insert(&marker).unwrap();
    assert_eq!(slot_idx, 0);
    assert_eq!(storage.stats().unwrap().count, 1);

    let found_idx = storage.find(&user, 42).unwrap();
    assert_eq!(found_idx, Some(slot_idx));

    let removed = storage.remove(&user, 42).unwrap();
    assert_eq!(removed.user, user);
    assert_eq!(removed.order_id, 42);
    assert_eq!(storage.stats().unwrap().count, 0);

    storage.validate_integrity().unwrap();
}

#[test]
fn test_account_too_small() {
    let mut data = vec![0u8; 10];
    let result = SafeZeroCopyOrderStorage::init_in_buffer(&mut data, 100);
    assert!(result.is_err());
}

#[test]
fn safe_zero_copy_order_storage_test_storage_full() {
    let marker_size = get_marker_serialized_size();
    let slot_size = SlotEntry::slot_size(marker_size);
    let capacity = 2u64;
    let required_size = REG_HEADER_SIZE + (capacity as usize * slot_size);

    let mut data = vec![0u8; required_size];
    SafeZeroCopyOrderStorage::init_in_buffer(&mut data, capacity).unwrap();
    let mut storage = SafeZeroCopyOrderStorage::load(data).unwrap();

    for i in 0..capacity {
        let mut marker = OrderMarker::default();
        marker.user = key(20 + i);
        marker.order_id = i;
        storage.insert(&marker).unwrap();
    }

    let mut marker = OrderMarker::default();
    marker.user = key(30);
    marker.order_id = 999;
    let result = storage.insert(&marker);
    assert!(result.is_err());
}

#[test]
fn test_find_with_hint_correct() {
    let marker_size = get_marker_serialized_size();
    let slot_size = SlotEntry::slot_size(marker_size);
    let capacity = 10u64;
    let required_size = REG_HEADER_SIZE + (capacity as usize * slot_size);

    let mut data = vec![0u8; required_size];
    SafeZeroCopyOrderStorage::init_in_buffer(&mut data, capacity).unwrap();
    let mut storage = SafeZeroCopyOrderStorage::load(data).unwrap();

    let user1 = key(40);
    let user2 = key(41);

    let marker1 = OrderMarker::new(user1, 100);
    let slot1 = storage.insert(&marker1).unwrap();

    let marker2 = OrderMarker::new(user2, 200);
    let slot2 = storage.insert(&marker2).unwrap();

    let marker3 = OrderMarker::new(user1, 300);
    let slot3 = storage.insert(&marker3).unwrap();

    assert_eq!(storage.find_with_hint(&user1, 100, slot1 as u32).unwrap(), Some(slot1));
    assert_eq!(storage.find_with_hint(&user2, 200, slot2 as u32).unwrap(), Some(slot2));
    assert_eq!(storage.find_with_hint(&user1, 300, slot3 as u32).unwrap(), Some(slot3));
}

#[test]
fn test_find_with_hint_incorrect() {
    let marker_size = get_marker_serialized_size();
    let slot_size = SlotEntry::slot_size(marker_size);
    let capacity = 10u64;
    let required_size = REG_HEADER_SIZE + (capacity as usize * slot_size);

    let mut data = vec![0u8; required_size];
    SafeZeroCopyOrderStorage::init_in_buffer(&mut data, capacity).unwrap();
    let mut storage = SafeZeroCopyOrderStorage::load(data).unwrap();

    let user = key(50);

    let marker1 = OrderMarker::new(user, 100);
    let slot1 = storage.insert(&marker1).unwrap();

    let marker2 = OrderMarker::new(user, 200);
    let slot2 = storage.insert(&marker2).unwrap();

    assert_eq!(storage.find_with_hint(&user, 100, slot2 as u32).unwrap(), Some(slot1));
    assert_eq!(storage.find_with_hint(&user, 200, slot1 as u32).unwrap(), Some(slot2));

    assert_eq!(storage.find_with_hint(&user, 100, 999).unwrap(), Some(slot1));

    assert_eq!(storage.find_with_hint(&user, 999, slot1 as u32).unwrap(), None);
}

#[test]
fn test_remove_with_hint() {
    let marker_size = get_marker_serialized_size();
    let slot_size = SlotEntry::slot_size(marker_size);
    let capacity = 10u64;
    let required_size = REG_HEADER_SIZE + (capacity as usize * slot_size);

    let mut data = vec![0u8; required_size];
    SafeZeroCopyOrderStorage::init_in_buffer(&mut data, capacity).unwrap();
    let mut storage = SafeZeroCopyOrderStorage::load(data).unwrap();

    let user = key(60);

    let marker1 = OrderMarker::new(user, 100);
    let slot1 = storage.insert(&marker1).unwrap();

    let marker2 = OrderMarker::new(user, 200);
    storage.insert(&marker2).unwrap();

    let removed = storage.remove_with_hint(&user, 100, slot1 as u32).unwrap();
    assert_eq!(removed.order_id, 100);
    assert_eq!(storage.stats().unwrap().count, 1);

    let removed = storage.remove_with_hint(&user, 200, slot1 as u32).unwrap();
    assert_eq!(removed.order_id, 200);
    assert_eq!(storage.stats().unwrap().count, 0);

    let result = storage.remove_with_hint(&user, 999, 0);
    assert!(result.is_err());
}

#[test]
fn zc_registry_round_trips_through_bytes() {
    let capacity = 4u64;
    let required_size = REG_HEADER_SIZE + (capacity as usize * SLOT_SIZE);
    let mut data = vec![0u8; required_size];
    SafeZeroCopyOrderStorage::init_in_buffer(&mut data, capacity).unwrap();
    let mut storage = SafeZeroCopyOrderStorage::load(data).unwrap();
    let user = key(70);
    storage.insert(&OrderMarker::new(user, 5)).unwrap();
    storage.insert(&OrderMarker::new(user, 6)).unwrap();
    storage.remove(&user, 5).unwrap();

    let bytes = storage.into_bytes();
    let mut reloaded = SafeZeroCopyOrderStorage::load(bytes).unwrap();
    assert_eq!(reloaded.stats().unwrap().count, 1);
    assert_eq!(reloaded.find(&user, 6).unwrap().is_some(), true);
    assert_eq!(reloaded.find(&user, 5).unwrap(), None);
    // The freed slot is reused on the next insert.
    let idx = reloaded.insert(&OrderMarker::new(user, 7)).unwrap();
    assert_eq!(idx, 0);
}

#[test]
fn zc_registry_load_rejects_wrong_version() {
    let capacity = 2u64;
    let mut data = vec![0u8; REG_HEADER_SIZE + capacity as usize * SLOT_SIZE];
    SafeZeroCopyOrderStorage::init_in_buffer(&mut data, capacity).unwrap();
    data[0] = data[0].wrapping_add(1);
    assert_eq!(
        SafeZeroCopyOrderStorage::load(data).err(),
        Some(ZeroCopyStorageError::UnsupportedVersion)
    );
}

#[test]
fn zc_registry_load_rejects_wrong_marker_size() {
    let capacity = 2u64;
    let mut data = vec![0u8; REG_HEADER_SIZE + capacity as usize * SLOT_SIZE];
    SafeZeroCopyOrderStorage::init_in_buffer(&mut data, capacity).unwrap();
    // The marker-size word sits after version, padding, capacity, count and
    // free head: offset 40.
    data[40] = data[40].wrapping_add(1);
    assert_eq!(
        SafeZeroCopyOrderStorage::load(data).err(),
        Some(ZeroCopyStorageError::InvalidMarkerSize)
    );
}

#[test]
fn zc_registry_load_rejects_count_mismatch() {
    let capacity = 2u64;
    let mut data = vec![0u8; REG_HEADER_SIZE + capacity as usize * SLOT_SIZE];
    SafeZeroCopyOrderStorage::init_in_buffer(&mut data, capacity).unwrap();
    // The count word sits at offset 16; a fresh registry has no occupied
    // slot, so a nonzero count is inconsistent.
    data[16] = 1;
    assert_eq!(
        SafeZeroCopyOrderStorage::load(data).err(),
        Some(ZeroCopyStorageError::CorruptedData)
    );
}

#[test]
fn zc_registry_load_rejects_free_head_at_occupied_slot() {
    let capacity = 2u64;
    let mut data = vec![0u8; REG_HEADER_SIZE + capacity as usize * SLOT_SIZE];
    SafeZeroCopyOrderStorage::init_in_buffer(&mut data, capacity).unwrap();
    let mut storage = SafeZeroCopyOrderStorage::load(data).unwrap();
    storage.insert(&OrderMarker::new(key(1), 7)).unwrap();
    let mut bytes = storage.into_bytes();
    // Point the free head (offset 24) at slot 0, which is occupied.
    bytes[24] = 0;
    for b in bytes.iter_mut().take(32).skip(25) {
        *b = 0;
    }
    assert_eq!(
        SafeZeroCopyOrderStorage::load(bytes).err(),
        Some(ZeroCopyStorageError::CorruptedData)
    );
}

#[test]
fn zc_registry_load_rejects_truncated_header() {
    let data = vec![0u8; REG_HEADER_SIZE - 1];
    assert_eq!(
        SafeZeroCopyOrderStorage::load(data).err(),
        Some(ZeroCopyStorageError::AccountTooSmall)
    );
}
