use ember_core::dec_allowance_state;
use ember_core::dec_cma_state;
use ember_core::dec_market_state;
use ember_core::dec_nonce_window;
use ember_core::dec_sequence_state;
use ember_core::dec_session_state;
use ember_core::dec_used_nonce_state;
use ember_core::enc_allowance_state;
use ember_core::enc_cma_state;
use ember_core::enc_global_state;
use ember_core::enc_market_state;
use ember_core::enc_nonce_window;
use ember_core::enc_sequence_state;
use ember_core::enc_session_state;
use ember_core::enc_used_nonce_state;
use ember_core::dec_order_storage;
use ember_core::enc_order_storage;
use ember_core::AllowanceState;
use ember_core::CrossMarginAccountV1;
use ember_core::GlobalStateV1;
use ember_core::MarginBucket;
use ember_core::MarginScope;
use ember_core::MarketStateV1;
use ember_core::NonceWindowState;
use ember_core::OrderDetailStorage;
use ember_core::OrderPrice;
use ember_core::OrderSide;
use ember_core::Pubkey;
use ember_core::SequenceState;
use ember_core::SessionState;
use ember_core::TokenBalance;
use ember_core::UsedNonceState;

fn key(n: u64) -> Pubkey {
    Pubkey::new(n, 61, 62, 63)
}

#[test]
fn session_state_round_trips() {
    let x = SessionState {
        owner: key(1),
        session: key(2),
        expires_unix: -5,
        scopes_bits: 7,
        withdraw_limit_24h: 1000,
        per_market_size_limit_lots: -20,
        bump: 3,
    };
    let mut buf: Vec<u8> = Vec::new();
    enc_session_state(&mut buf, &x);
    let (back, used) = dec_session_state(&buf, 0).unwrap();
    assert_eq!(back, x);
    assert_eq!(used, buf.len());
}

#[test]
fn allowance_state_round_trips() {
    let x = AllowanceState {
        owner: key(3),
        session: key(4),
        id: [9u8; 32],
        remaining_uses: 2,
        expires_unix: 77,
        scopes_bits: 21,
        bump: 1,
    };
    let mut buf: Vec<u8> = Vec::new();
    enc_allowance_state(&mut buf, &x);
    let (back, used) = dec_allowance_state(&buf, 0).unwrap();
    assert_eq!(back, x);
    assert_eq!(used, buf.len());
}

#[test]
fn replay_marker_records_round_trip() {
    let u = UsedNonceState { timestamp: -1, bump: 9 };
    let mut buf: Vec<u8> = Vec::new();
    enc_used_nonce_state(&mut buf, &u);
    assert_eq!(dec_used_nonce_state(&buf, 0).unwrap().0, u);

    let s = SequenceState { next_sequence: 55, bump: 2 };
    let mut buf2: Vec<u8> = Vec::new();
    enc_sequence_state(&mut buf2, &s);
    assert_eq!(dec_sequence_state(&buf2, 0).unwrap().0, s);
}

#[test]
fn market_state_round_trips() {
    let x = MarketStateV1 {
        oracle: key(5),
        base_token: key(6),
        tick_size: 10,
        last_bid: 99,
        last_ask: 101,
        last_mark_price: 100,
        last_traded_price: 98,
        open_interest: -4,
        clearing_net_pos: 4,
        clearing_entry_price: 97,
        clearing_real_pnl: -1,
        im_bps: 1000,
        mm_bps: 500,
        min_order_size: 1,
        max_order_size: 2,
        max_oi_size: 3,
        max_user_oi_size: 4,
        fill_offset: 5,
        current_log_page: 6,
        ..Default::default()
    };
    let mut buf: Vec<u8> = Vec::new();
    enc_market_state(&mut buf, &x);
    let (back, used) = dec_market_state(&buf, 0).unwrap();
    assert_eq!(back, x);
    assert_eq!(used, buf.len());
}

#[test]
fn nonce_window_record_round_trips() {
    let x = NonceWindowState { signer: key(7), k: 4, top: vec![5, 9, 11], bump: 2 };
    let mut buf: Vec<u8> = Vec::new();
    enc_nonce_window(&mut buf, &x);
    let (back, used) = dec_nonce_window(&buf, 0).unwrap();
    assert_eq!(back, x);
    assert_eq!(used, buf.len());
}

#[test]
fn cma_record_round_trips() {
    let x = CrossMarginAccountV1 {
        version: 2,
        _pad: [0; 128],
        user: key(8),
        balances: vec![TokenBalance { mint: key(9), amount: 44, _pad: [0; 16] }],
        buckets: vec![MarginBucket {
            scope: MarginScope::MarketIsolated(3),
            mint: key(9),
            committed: 1000,
            net_position: -7,
            open_bid_qty: 1,
            open_ask_qty: 2,
            avg_entry_price: 50,
            user_set_im_bps: 11,
            _pad: [0; 32],
        }],
        _pad2: [0; 8],
    };
    let mut buf: Vec<u8> = Vec::new();
    enc_cma_state(&mut buf, &x);
    let (back, used) = dec_cma_state(&buf, 0).unwrap();
    assert_eq!(back.version, x.version);
    assert_eq!(back.user, x.user);
    assert_eq!(back.balances, x.balances);
    assert_eq!(back.buckets, x.buckets);
    assert_eq!(used, buf.len());
}

#[test]
fn global_state_encodes_registry() {
    let x = GlobalStateV1 {
        version: 1,
        _pad: [0; 128],
        admins: vec![key(10)],
        keepers: vec![key(11), key(12)],
        min_deposit_size: 500,
        _pad2: [0; 128],
    };
    let mut buf: Vec<u8> = Vec::new();
    enc_global_state(&mut buf, &x);
    // version, 128 pad bytes, one admin, two keepers, deposit floor, 128 pad bytes
    assert_eq!(buf.len(), 1 + 128 + (4 + 32) + (4 + 64) + 8 + 128);
}

#[test]
fn test_market_state_serialization() {
    let market = MarketStateV1::default();
    let mut serialized: Vec<u8> = Vec::new();
    enc_market_state(&mut serialized, &market);

    let deserialized = dec_market_state(&serialized, 0).unwrap().0;
    assert_eq!(market.version, deserialized.version);
}

#[test]
fn order_storage_record_round_trips() {
    let mut storage = OrderDetailStorage::new();
    storage
        .insert_order(7, OrderSide::Bid, 500, OrderPrice::Limit(1_000), 6_000)
        .unwrap();
    let mut buf: Vec<u8> = Vec::new();
    enc_order_storage(&mut buf, &storage);
    let (back, used) = dec_order_storage(&buf, 0).unwrap();
    assert_eq!(used, buf.len());
    assert_eq!(back.capacity, storage.capacity);
    assert_eq!(back.total_inserted, storage.total_inserted);
    assert_eq!(back.orders, storage.orders);
}
