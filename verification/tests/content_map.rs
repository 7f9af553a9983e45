//! The ordered content map: lookup, replacement and key order.

use aqua_chain::content::ContentMap;

#[test]
fn insert_and_get() {
    let mut m = ContentMap::new();
    assert_eq!(m.len(), 0);
    assert!(m.get("k").is_none());
    m.insert("k".to_string(), "v".to_string());
    assert_eq!(m.len(), 1);
    assert_eq!(m.get("k").unwrap(), "v");
    assert!(m.contains_key("k"));
    assert!(!m.contains_key("l"));
}

#[test]
fn insert_replaces_an_existing_key() {
    let mut m = ContentMap::new();
    m.insert("k".to_string(), "v1".to_string());
    m.insert("k".to_string(), "v2".to_string());
    assert_eq!(m.len(), 1);
    assert_eq!(m.get("k").unwrap(), "v2");
}

#[test]
fn iteration_order_is_key_order() {
    let mut m = ContentMap::new();
    m.insert("pear".to_string(), "3".to_string());
    m.insert("apple".to_string(), "1".to_string());
    m.insert("orange".to_string(), "2".to_string());
    assert_eq!(m.len(), 3);
    assert_eq!(m.key_at(0), "apple");
    assert_eq!(m.key_at(1), "orange");
    assert_eq!(m.key_at(2), "pear");
    assert_eq!(m.value_at(0), "1");
    assert_eq!(m.value_at(1), "2");
    assert_eq!(m.value_at(2), "3");
}

#[test]
fn duplicate_copies_all_entries() {
    let mut m = ContentMap::new();
    m.insert("a".to_string(), "1".to_string());
    m.insert("b".to_string(), "2".to_string());
    let d = m.duplicate();
    assert_eq!(d.len(), 2);
    assert_eq!(d.get("a").unwrap(), "1");
    assert_eq!(d.get("b").unwrap(), "2");
}
