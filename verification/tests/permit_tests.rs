use ember_core::decode_envelope;
use ember_core::encode_envelope;
use ember_core::ClusterType;
use ember_core::HealthFloor;
use ember_core::HealthMetric;
use ember_core::KeyType;
use ember_core::NonceWindowState;
use ember_core::PermitAction;
use ember_core::PermitDomain;
use ember_core::PermitEnvelopeV1;
use ember_core::Pubkey;
use ember_core::ReplayMode;
use ember_core::SessionState;
use ember_core::TimeInForce;
use ember_core::SCOPE_CANCEL;
use ember_core::SCOPE_FAUCET;
use ember_core::SCOPE_PLACE;

fn key(n: u64) -> Pubkey {
    Pubkey::new(n, 1, 2, 3)
}

#[test]
fn test_nonce_window_insert() {
    let mut window = NonceWindowState { signer: key(1), k: 3, top: vec![], bump: 0 };

    assert!(window.insert_nonce(100).is_ok());
    assert_eq!(window.top, vec![100]);

    assert!(window.insert_nonce(200).is_ok());
    assert_eq!(window.top, vec![100, 200]);

    assert!(window.insert_nonce(150).is_ok());
    assert_eq!(window.top, vec![100, 150, 200]);

    assert!(window.insert_nonce(300).is_ok());
    assert_eq!(window.top, vec![150, 200, 300]);

    assert!(window.insert_nonce(140).is_err());
    assert_eq!(window.top, vec![150, 200, 300]);

    assert!(window.insert_nonce(200).is_err());
    assert_eq!(window.top, vec![150, 200, 300]);
}

#[test]
fn nonce_window_scenario_accepts_and_rejects() {
    // With k = 3, the inserts 100, 200, 150, 300, 140, 200 go
    // accept/accept/accept/accept/reject/reject and the final window is
    // {150, 200, 300}.
    let mut window = NonceWindowState { signer: key(2), k: 3, top: vec![], bump: 0 };
    let outcomes: Vec<bool> = [100u64, 200, 150, 300, 140, 200]
        .iter()
        .map(|n| window.insert_nonce(*n).is_ok())
        .collect();
    assert_eq!(outcomes, vec![true, true, true, true, false, false]);
    assert_eq!(window.top, vec![150, 200, 300]);
}

#[test]
fn nonce_window_floor_is_monotone_once_full() {
    let mut window = NonceWindowState { signer: key(3), k: 3, top: vec![], bump: 0 };
    for n in [50u64, 30, 70] {
        window.insert_nonce(n).unwrap();
    }
    let mut floor = window.top[0];
    for n in [10u64, 40, 90, 35, 60, 55, 80] {
        let _ = window.insert_nonce(n);
        assert!(window.top[0] >= floor);
        floor = window.top[0];
    }
}

#[test]
fn test_nonce_window_time_bounds() {
    let window = NonceWindowState { signer: key(4), k: 128, top: vec![], bump: 0 };

    let now_ms: i64 = 1_700_000_000_000;
    let one_day_ms = 24 * 60 * 60 * 1000;
    let two_days_ms = 2 * one_day_ms;

    assert!(window.is_valid_nonce(now_ms as u64, now_ms));
    assert!(window.is_valid_nonce((now_ms - one_day_ms) as u64, now_ms));
    assert!(window.is_valid_nonce((now_ms + (one_day_ms / 2)) as u64, now_ms));

    assert!(!window.is_valid_nonce((now_ms - two_days_ms - 1000) as u64, now_ms));
    assert!(!window.is_valid_nonce((now_ms + one_day_ms + 1000) as u64, now_ms));
}

#[test]
fn test_session_has_scope() {
    let session = SessionState {
        owner: key(5),
        session: key(6),
        expires_unix: 0,
        scopes_bits: SCOPE_PLACE | SCOPE_CANCEL,
        withdraw_limit_24h: 0,
        per_market_size_limit_lots: 0,
        bump: 0,
    };

    assert!(session.has_scope(&PermitAction::Place {
        market_id: 1,
        client_id: 123,
        side: 0,
        qty: 100,
        price: Some(1000),
        tif: TimeInForce::GTC,
        reduce_only: false,
        trigger_price: None,
        trigger_type: 0,
        health_floor: None,
    }));

    assert!(session.has_scope(&PermitAction::CancelById { market_id: 1, order_id: 123 }));

    assert!(!session.has_scope(&PermitAction::Withdraw {
        amount: 1000,
        to_owner: key(7),
        health_floor: None,
    }));

    assert!(!session.has_scope(&PermitAction::SetLeverage {
        market_id: 1,
        target_leverage_bps: 200,
        health_floor: None,
    }));

    assert!(!session.has_scope(&PermitAction::Faucet {
        market_id: 1,
        amount: 1_000,
        recipient: key(8),
    }));

    let faucet_session = SessionState { scopes_bits: SCOPE_FAUCET, ..session.clone() };
    assert!(faucet_session.has_scope(&PermitAction::Faucet {
        market_id: 1,
        amount: 1_000,
        recipient: key(9),
    }));
}

#[test]
fn session_scope_table_is_complete() {
    // Every action variant resolves against the scope table; a no-op
    // needs no scope and a modify needs both place and cancel.
    let actions: Vec<(PermitAction, u32)> = vec![
        (
            PermitAction::Place {
                market_id: 0,
                client_id: 0,
                side: 0,
                qty: 0,
                price: None,
                tif: TimeInForce::GTC,
                reduce_only: false,
                trigger_price: None,
                trigger_type: 0,
                health_floor: None,
            },
            1,
        ),
        (PermitAction::CancelById { market_id: 0, order_id: 0 }, 2),
        (PermitAction::CancelByClientId { market_id: 0, client_id: 0 }, 2),
        (PermitAction::CancelAll { market_id: None }, 2),
        (
            PermitAction::Modify {
                market_id: 0,
                cancel_order_id: 0,
                new_client_id: 0,
                side: 0,
                qty: 0,
                price: None,
                tif: TimeInForce::GTC,
                reduce_only: false,
                trigger_price: None,
                trigger_type: 0,
                health_floor: None,
            },
            3,
        ),
        (
            PermitAction::Withdraw { amount: 0, to_owner: key(10), health_floor: None },
            4,
        ),
        (
            PermitAction::SetLeverage { market_id: 0, target_leverage_bps: 0, health_floor: None },
            8,
        ),
        (PermitAction::Noop, 0),
        (
            PermitAction::Faucet { market_id: 0, amount: 0, recipient: key(11) },
            16,
        ),
    ];
    for (action, needed) in actions {
        let without = SessionState {
            owner: key(12),
            session: key(13),
            expires_unix: 0,
            scopes_bits: 0,
            withdraw_limit_24h: 0,
            per_market_size_limit_lots: 0,
            bump: 0,
        };
        let with = SessionState { scopes_bits: needed, ..without };
        assert!(with.has_scope(&action));
        if needed != 0 {
            assert!(!without.has_scope(&action));
        } else {
            assert!(without.has_scope(&action));
        }
    }
}

#[test]
fn permit_test_health_floor_variants() {
    let floor1 = HealthFloor { metric: HealthMetric::Initial, min: 0 };
    let floor2 = HealthFloor { metric: HealthMetric::Maintenance, min: 1000 };
    let floor3 = HealthFloor { metric: HealthMetric::RatioBps, min: 150 };

    for floor in [floor1, floor2, floor3] {
        let envelope = PermitEnvelopeV1 {
            domain: PermitDomain { program_id: key(14), cluster: ClusterType::Testnet, version: 1 },
            authorizer: key(15),
            key_type: KeyType::Ed25519,
            action: PermitAction::Withdraw {
                amount: 5,
                to_owner: key(16),
                health_floor: Some(floor),
            },
            mode: ReplayMode::Sequence(7),
            expires_unix: 1,
            max_fee_quote: 0,
            relayer: None,
            nonce: 1,
        };
        assert!(!encode_envelope(&envelope).is_empty());
    }
}

fn sample_envelope() -> PermitEnvelopeV1 {
    PermitEnvelopeV1 {
        domain: PermitDomain {
            program_id: key(20),
            cluster: ClusterType::Testnet,
            version: 1,
        },
        authorizer: Pubkey::new(
            0xaaaa_aaaa_aaaa_aaaa,
            0xaaaa_aaaa_aaaa_aaaa,
            0xaaaa_aaaa_aaaa_aaaa,
            0xaaaa_aaaa_aaaa_aaaa,
        ),
        key_type: KeyType::Ed25519,
        action: PermitAction::Place {
            market_id: 1,
            client_id: 12345,
            side: 0,
            qty: 100,
            price: Some(50000),
            tif: TimeInForce::GTC,
            reduce_only: false,
            trigger_price: None,
            trigger_type: 0,
            health_floor: None,
        },
        mode: ReplayMode::HlWindow { k: 128 },
        expires_unix: 1700000000,
        max_fee_quote: 0,
        relayer: None,
        nonce: 123456789,
    }
}

#[test]
fn permit_test_permit_envelope_serialization() {
    let envelope = sample_envelope();

    let serialized = encode_envelope(&envelope);
    let deserialized = decode_envelope(&serialized).unwrap();

    assert_eq!(envelope.domain.version, deserialized.domain.version);
    assert_eq!(envelope.authorizer, deserialized.authorizer);
    assert_eq!(envelope.nonce, deserialized.nonce);
    assert_eq!(envelope.expires_unix, deserialized.expires_unix);
    assert_eq!(envelope, deserialized);
}

#[test]
fn envelope_encoding_is_deterministic() {
    // Two encoders over the same envelope produce byte-identical output.
    let a = encode_envelope(&sample_envelope());
    let b = encode_envelope(&sample_envelope());
    assert_eq!(a, b);
    // The action tag sits after the 34-byte domain, the 32-byte
    // authorizer and the 1-byte key type, and Place is variant zero.
    assert_eq!(a[34 + 32 + 1], 0);
}

#[test]
fn envelope_decode_rejects_trailing_bytes() {
    let mut bytes = encode_envelope(&sample_envelope());
    bytes.push(0);
    assert!(decode_envelope(&bytes).is_none());
}

#[test]
fn envelope_decode_rejects_bad_tag() {
    let mut bytes = encode_envelope(&sample_envelope());
    // Corrupt the action discriminant.
    bytes[34 + 32 + 1] = 200;
    assert!(decode_envelope(&bytes).is_none());
}

#[test]
fn envelope_bit_flip_never_decodes_to_the_same_envelope() {
    let envelope = sample_envelope();
    let bytes = encode_envelope(&envelope);
    for i in 0..bytes.len() {
        let mut flipped = bytes.clone();
        flipped[i] ^= 1;
        match decode_envelope(&flipped) {
            Some(other) => assert_ne!(other, envelope),
            None => {}
        }
    }
}

