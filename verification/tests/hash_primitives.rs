//! The hash primitives against independently computed SHA3-512 fixtures.

use aqua_chain::content::ContentMap;
use aqua_chain::hashes::HashValue;
use aqua_chain::hashes::TxHash;
use aqua_chain::util::make_empty_hash;
use aqua_chain::verification::{
    content_hash, metadata_hash, signature_hash, verification_hash, witness_hash,
};
use sha3::{Digest, Sha3_512};

fn sha3_hex(data: &[u8]) -> String {
    hex::encode(Sha3_512::digest(data))
}

#[test]
fn content_hash_concrete_scenario() {
    // Content map {"file_hash": <hex of sha3-512 of the 3 bytes "abc">}.
    let file_hash_hex = sha3_hex(b"abc");
    let mut content = ContentMap::new();
    content.insert("file_hash".to_string(), file_hash_hex.clone());

    // The content hash feeds the values in key order: here one hex string.
    let expected_h1 = sha3_hex(file_hash_hex.as_bytes());
    let h1 = content_hash(&content);
    assert_eq!(h1.to_hex(), expected_h1);
}

#[test]
fn metadata_hash_concrete_scenario() {
    // Feeds the domain id then the timestamp's string form; no previous
    // hash for a genesis candidate.
    let expected_h2 = sha3_hex(b"02024-01-01T00:00:00Z");
    let h2 = metadata_hash("0", "2024-01-01T00:00:00Z", None);
    assert_eq!(h2.to_hex(), expected_h2);
}

#[test]
fn metadata_hash_feeds_previous_hash_hex() {
    let prev = HashValue::from_bytes(vec![0xABu8; 64]).unwrap();
    let mut fed = b"d2024".to_vec();
    fed.extend_from_slice(hex::encode(vec![0xABu8; 64]).as_bytes());
    let expected = sha3_hex(&fed);
    let h = metadata_hash("d", "2024", Some(&prev));
    assert_eq!(h.to_hex(), expected);
}

#[test]
fn verification_hash_concrete_scenario() {
    let file_hash_hex = sha3_hex(b"abc");
    let mut content = ContentMap::new();
    content.insert("file_hash".to_string(), file_hash_hex.clone());
    let h1 = content_hash(&content);
    let h2 = metadata_hash("0", "2024-01-01T00:00:00Z", None);

    // Feeds the two hashes' hex forms in order.
    let mut fed = h1.to_hex().into_bytes();
    fed.extend_from_slice(h2.to_hex().as_bytes());
    let expected_h3 = sha3_hex(&fed);
    let h3 = verification_hash(&h1, &h2, None, None);
    assert_eq!(h3.to_hex(), expected_h3);
}

#[test]
fn verification_hash_layers_are_order_sensitive() {
    let a = HashValue::from_bytes(vec![1u8; 64]).unwrap();
    let b = HashValue::from_bytes(vec![2u8; 64]).unwrap();
    let s = HashValue::from_bytes(vec![3u8; 64]).unwrap();
    let w = HashValue::from_bytes(vec![4u8; 64]).unwrap();

    let bare = verification_hash(&a, &b, None, None);
    let signed = verification_hash(&a, &b, Some(&s), None);
    let witnessed = verification_hash(&a, &b, None, Some(&w));
    let both = verification_hash(&a, &b, Some(&s), Some(&w));
    assert_ne!(bare.to_hex(), signed.to_hex());
    assert_ne!(bare.to_hex(), witnessed.to_hex());
    assert_ne!(signed.to_hex(), witnessed.to_hex());
    assert_ne!(signed.to_hex(), both.to_hex());

    let mut fed = hex::encode(vec![1u8; 64]).into_bytes();
    fed.extend_from_slice(hex::encode(vec![2u8; 64]).as_bytes());
    fed.extend_from_slice(hex::encode(vec![3u8; 64]).as_bytes());
    fed.extend_from_slice(hex::encode(vec![4u8; 64]).as_bytes());
    assert_eq!(both.to_hex(), sha3_hex(&fed));
}

#[test]
fn signature_hash_concrete() {
    let sig = vec![0x55u8; 65];
    let pk = vec![0x66u8; 65];
    let mut fed = hex::encode(&sig).into_bytes();
    fed.extend_from_slice(hex::encode(&pk).as_bytes());
    let expected = sha3_hex(&fed);
    assert_eq!(signature_hash(&sig, &pk).to_hex(), expected);
}

#[test]
fn witness_hash_concrete() {
    let d = HashValue::from_bytes(vec![7u8; 64]).unwrap();
    let m = HashValue::from_bytes(vec![8u8; 64]).unwrap();
    let tx = TxHash::from_bytes(vec![9u8; 32]).unwrap();
    let mut fed = hex::encode(vec![7u8; 64]).into_bytes();
    fed.extend_from_slice(hex::encode(vec![8u8; 64]).as_bytes());
    fed.extend_from_slice(b"sepolia");
    fed.extend_from_slice(hex::encode(vec![9u8; 32]).as_bytes());
    let expected = sha3_hex(&fed);
    assert_eq!(witness_hash(&d, &m, "sepolia", &tx).to_hex(), expected);
}

#[test]
fn make_empty_hash_is_digest_of_nothing() {
    assert_eq!(make_empty_hash().to_hex(), sha3_hex(b""));
}

#[test]
fn content_hash_deterministic_and_order_independent() {
    // Same pairs inserted in two different orders hash identically: the
    // iteration order is key order, not insertion order.
    let mut m1 = ContentMap::new();
    m1.insert("alpha".to_string(), "1".to_string());
    m1.insert("beta".to_string(), "2".to_string());
    m1.insert("gamma".to_string(), "3".to_string());

    let mut m2 = ContentMap::new();
    m2.insert("gamma".to_string(), "3".to_string());
    m2.insert("alpha".to_string(), "1".to_string());
    m2.insert("beta".to_string(), "2".to_string());

    let h1a = content_hash(&m1);
    let h1b = content_hash(&m1);
    assert_eq!(h1a.to_hex(), h1b.to_hex());
    assert_eq!(h1a.to_hex(), content_hash(&m2).to_hex());

    // Keys are not fed, only values in key order.
    assert_eq!(h1a.to_hex(), sha3_hex(b"123"));
}

#[test]
fn content_hash_differs_when_a_value_changes() {
    let mut m1 = ContentMap::new();
    m1.insert("k".to_string(), "value".to_string());
    let mut m2 = ContentMap::new();
    m2.insert("k".to_string(), "valuf".to_string());
    assert_ne!(content_hash(&m1).to_hex(), content_hash(&m2).to_hex());
}
