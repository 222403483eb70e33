use ed25519_dalek::Keypair;
use ed25519_dalek::PublicKey;
use ed25519_dalek::SecretKey;
use ed25519_dalek::Signer;
use ember_core::decode_envelope;
use ember_core::encode_envelope;
use ember_core::sign_permit_ed25519;
use ember_core::ClusterType;
use ember_core::HealthFloor;
use ember_core::HealthMetric;
use ember_core::KeyType;
use ember_core::PermitAction;
use ember_core::PermitDomain;
use ember_core::PermitEnvelopeV1;
use ember_core::Pubkey;
use ember_core::ReplayMode;
use ember_core::TimeInForce;

fn key(n: u64) -> Pubkey {
    Pubkey::new(n, 71, 72, 73)
}

#[test]
fn lib_test_permit_envelope_serialization() {
    let envelope = PermitEnvelopeV1 {
        domain: PermitDomain {
            program_id: key(1),
            cluster: ClusterType::Testnet,
            version: 1,
        },
        authorizer: key(2),
        key_type: KeyType::Ed25519,
        action: PermitAction::Place {
            market_id: 1,
            client_id: 12345,
            side: 0,
            qty: 100,
            price: Some(50000),
            tif: TimeInForce::GTC,
            reduce_only: false,
            trigger_price: None,
            trigger_type: 0,
            health_floor: None,
        },
        mode: ReplayMode::HlWindow { k: 128 },
        expires_unix: 1700000000,
        max_fee_quote: 0,
        relayer: None,
        nonce: 123456789,
    };

    let serialized = encode_envelope(&envelope);
    let deserialized = decode_envelope(&serialized).unwrap();

    assert_eq!(envelope.domain.version, deserialized.domain.version);
    assert_eq!(envelope.authorizer, deserialized.authorizer);
    assert_eq!(envelope.nonce, deserialized.nonce);
    assert_eq!(envelope.expires_unix, deserialized.expires_unix);
}

#[test]
fn lib_test_health_floor_variants() {
    let floor1 = HealthFloor { metric: HealthMetric::Initial, min: 0 };
    let floor2 = HealthFloor { metric: HealthMetric::Maintenance, min: 1000 };
    let floor3 = HealthFloor { metric: HealthMetric::RatioBps, min: 150 };

    for floor in [floor1, floor2, floor3] {
        let envelope = PermitEnvelopeV1 {
            domain: PermitDomain { program_id: key(3), cluster: ClusterType::Localnet, version: 1 },
            authorizer: key(4),
            key_type: KeyType::Ed25519,
            action: PermitAction::SetLeverage {
                market_id: 2,
                target_leverage_bps: 100,
                health_floor: Some(floor),
            },
            mode: ReplayMode::Nonce([1u8; 32]),
            expires_unix: 2,
            max_fee_quote: 0,
            relayer: None,
            nonce: 3,
        };
        assert!(!encode_envelope(&envelope).is_empty());
    }
}

#[test]
fn lib_test_sign_permit_ed25519() {
    let secret_key = SecretKey::from_bytes(&[7u8; 32]).unwrap();
    let public_key = PublicKey::from(&secret_key);
    let keypair = Keypair { secret: secret_key, public: public_key };

    let envelope = PermitEnvelopeV1 {
        domain: PermitDomain {
            program_id: key(5),
            cluster: ClusterType::Testnet,
            version: 1,
        },
        authorizer: key(6),
        key_type: KeyType::Ed25519,
        action: PermitAction::Noop,
        mode: ReplayMode::HlWindow { k: 16 },
        expires_unix: 1_700_000_000,
        max_fee_quote: 0,
        relayer: None,
        nonce: 42,
    };

    let signed = sign_permit_ed25519(&envelope, &keypair);
    assert_eq!(signed.bytes, encode_envelope(&envelope));

    let expected: [u8; 64] = keypair.sign(&signed.bytes).to_bytes();
    assert_eq!(signed.signature, expected);
}
