//! The canonical hex codec against the hex crate, and its round trip.

use aqua_chain::hashes::{hex_encode, hex_string, HashValue, TxHash};

#[test]
fn hex_encode_matches_reference_encoder() {
    let data: Vec<u8> = (0u8..=255).collect();
    let ours = hex_encode(&data);
    assert_eq!(ours, hex::encode(&data).into_bytes());
}

#[test]
fn hex_string_matches_reference_encoder() {
    let data = vec![0x00u8, 0x19, 0x7f, 0x80, 0xff];
    assert_eq!(hex_string(&data), hex::encode(&data));
}

#[test]
fn hash_hex_round_trip() {
    let bytes: Vec<u8> = (0u8..64).collect();
    let h = HashValue::from_bytes(bytes.clone()).unwrap();
    let s = h.to_hex();
    assert_eq!(s.len(), 128);
    let parsed = HashValue::from_hex(&s).unwrap();
    assert_eq!(parsed.as_bytes(), h.as_bytes());
    assert_eq!(parsed.as_bytes(), &bytes[..]);
}

#[test]
fn tx_hash_hex_round_trip() {
    let bytes = vec![0xEEu8; 32];
    let t = TxHash::from_bytes(bytes.clone()).unwrap();
    let parsed = TxHash::from_hex(&t.to_hex()).unwrap();
    assert_eq!(parsed.as_bytes(), &bytes[..]);
}

#[test]
fn from_hex_rejects_wrong_length() {
    assert!(HashValue::from_hex("abcd").is_none());
    assert!(TxHash::from_hex("").is_none());
    let long = "a".repeat(130);
    assert!(HashValue::from_hex(&long).is_none());
}

#[test]
fn from_hex_rejects_non_hex_digits() {
    let mut s = "a".repeat(128);
    s.replace_range(10..11, "G");
    assert!(HashValue::from_hex(&s).is_none());
    let mut t = "0".repeat(128);
    t.replace_range(0..1, " ");
    assert!(HashValue::from_hex(&t).is_none());
    // Uppercase digits are not canonical.
    let upper = "A".repeat(128);
    assert!(HashValue::from_hex(&upper).is_none());
}

#[test]
fn from_bytes_enforces_width() {
    assert!(HashValue::from_bytes(vec![0u8; 63]).is_none());
    assert!(HashValue::from_bytes(vec![0u8; 65]).is_none());
    assert!(HashValue::from_bytes(vec![0u8; 64]).is_some());
    assert!(TxHash::from_bytes(vec![0u8; 31]).is_none());
    assert!(TxHash::from_bytes(vec![0u8; 32]).is_some());
}

#[test]
fn hash_equality_is_by_bytes() {
    let a = HashValue::from_bytes(vec![1u8; 64]).unwrap();
    let b = HashValue::from_bytes(vec![1u8; 64]).unwrap();
    let c = HashValue::from_bytes(vec![2u8; 64]).unwrap();
    assert!(a.equals(&b));
    assert!(!a.equals(&c));
    assert!(a.duplicate().equals(&a));
}
