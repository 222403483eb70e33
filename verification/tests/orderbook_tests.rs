use ember_core::asks_offset;
use ember_core::bids_offset;
use ember_core::quantize_price_to_sigfigs;
use ember_core::sigfig_header_offset;
use ember_core::sigfig_index;
use ember_core::ORDERBOOK_SIDE_SECTION_SIZE;
use ember_core::ORDERBOOK_SIGFIG_COUNT;
use ember_core::ORDERBOOK_SNAPSHOT_SIZE;

#[test]
fn test_sigfig_index() {
    let options: [u8; 5] = [0, 2, 3, 4, 5];
    for (idx, sigfigs) in options.iter().enumerate() {
        assert_eq!(sigfig_index(*sigfigs), Some(idx));
    }
    assert_eq!(sigfig_index(6), None);
}

#[test]
fn test_section_offsets() {
    for idx in 0..ORDERBOOK_SIGFIG_COUNT {
        let header = sigfig_header_offset(idx);
        let bids = bids_offset(idx);
        let asks = asks_offset(idx);
        assert!(header < bids);
        assert!(bids < asks);
        assert!(asks + ORDERBOOK_SIDE_SECTION_SIZE <= ORDERBOOK_SNAPSHOT_SIZE);
    }
}

#[test]
fn test_quantize_price_to_sigfigs() {
    assert_eq!(
        quantize_price_to_sigfigs(114_590_000_000, 5),
        Some(114_590_000_000)
    );
    assert_eq!(quantize_price_to_sigfigs(123_456_000, 0), Some(123_456_000));
    assert_eq!(quantize_price_to_sigfigs(123_456_000, 5), Some(123_460_000));
    // An unsupported significant-figure count is rejected, matching the
    // stored variant set.
    assert_eq!(quantize_price_to_sigfigs(123_456_000, 6), None);
    assert_eq!(quantize_price_to_sigfigs(9_990, 2), Some(10_000));
    assert_eq!(quantize_price_to_sigfigs(9_990, 3), Some(9_990));
    assert_eq!(quantize_price_to_sigfigs(0, 2), None);
    assert_eq!(quantize_price_to_sigfigs(-10, 2), None);
}
