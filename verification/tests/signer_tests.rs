use ed25519_dalek::Keypair;
use ed25519_dalek::PublicKey;
use ed25519_dalek::SecretKey;
use ed25519_dalek::Signer;
use ember_core::bytes_to_hex;
use ember_core::encode_envelope;
use ember_core::hex_to_bytes;
use ember_core::sign_permit_ed25519;
use ember_core::ClusterType;
use ember_core::KeyType;
use ember_core::PermitAction;
use ember_core::PermitDomain;
use ember_core::PermitEnvelopeV1;
use ember_core::Pubkey;
use ember_core::ReplayMode;

fn key(n: u64) -> Pubkey {
    Pubkey::new(n, 41, 42, 43)
}

#[test]
fn permit_test_sign_permit_ed25519() {
    let secret_key = SecretKey::from_bytes(&[7u8; 32]).unwrap();
    let public_key = PublicKey::from(&secret_key);
    let keypair = Keypair { secret: secret_key, public: public_key };

    let envelope = PermitEnvelopeV1 {
        domain: PermitDomain {
            program_id: key(1),
            cluster: ClusterType::Testnet,
            version: 1,
        },
        authorizer: key(2),
        key_type: KeyType::Ed25519,
        action: PermitAction::Noop,
        mode: ReplayMode::HlWindow { k: 16 },
        expires_unix: 1_700_000_000,
        max_fee_quote: 0,
        relayer: None,
        nonce: 42,
    };

    let signed = sign_permit_ed25519(&envelope, &keypair);
    assert_eq!(signed.bytes, encode_envelope(&envelope));

    let expected = keypair.sign(&signed.bytes).to_bytes();
    assert_eq!(signed.signature, expected);
}

#[test]
fn test_signed_permit_into_parts() {
    let secret_key = SecretKey::from_bytes(&[9u8; 32]).unwrap();
    let public_key = PublicKey::from(&secret_key);
    let keypair = Keypair { secret: secret_key, public: public_key };

    let envelope = PermitEnvelopeV1 {
        domain: PermitDomain {
            program_id: key(3),
            cluster: ClusterType::Devnet,
            version: 1,
        },
        authorizer: key(4),
        key_type: KeyType::Ed25519,
        action: PermitAction::CancelAll { market_id: Some(2) },
        mode: ReplayMode::Sequence(5),
        expires_unix: 10,
        max_fee_quote: 1,
        relayer: Some(key(5)),
        nonce: 6,
    };
    let signed = sign_permit_ed25519(&envelope, &keypair);
    let expected_bytes = signed.bytes.clone();
    let expected_sig = signed.signature;
    let (bytes, signature) = signed.into_parts();
    assert_eq!(bytes, expected_bytes);
    assert_eq!(signature, expected_sig);
}

#[test]
fn test_hex_encode_decode_round_trip() {
    let bytes = vec![0u8, 1, 2, 0xab, 0xcd, 0xef, 255];
    let hexed = bytes_to_hex(&bytes);
    assert_eq!(hexed, "000102abcdef ff".replace(' ', ""));
    let back = hex_to_bytes(&hexed).unwrap();
    assert_eq!(back, bytes);
}

#[test]
fn test_hex_decode_accepts_upper_case() {
    let back = hex_to_bytes("ABCDEF").unwrap();
    assert_eq!(back, vec![0xab, 0xcd, 0xef]);
}

#[test]
fn test_hex_decode_rejects_bad_input() {
    assert!(hex_to_bytes("abc").is_err());
    assert!(hex_to_bytes("zz").is_err());
}
