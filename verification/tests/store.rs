use redis_starter_rust::redis_type::RedisType;
use redis_starter_rust::store::{Lookup, Store};

#[test]
fn put_then_get_returns_the_value() {
    let mut store = Store::new();
    assert!(!store.contains_key("k"));
    assert_eq!(store.get("k", 0), None);
    store.put("k".to_string(), RedisType::bulk_string("v"), None, 0);
    assert!(store.contains_key("k"));
    assert_eq!(store.get("k", u64::MAX), Some(RedisType::bulk_string("v")));
    store.put("k".to_string(), RedisType::simple_string("w"), None, 0);
    assert_eq!(store.get("k", 5), Some(RedisType::simple_string("w")));
    assert_eq!(store.get("K", 5), None);
}

#[test]
fn get_removes_an_entry_that_expired() {
    let mut store = Store::new();
    store.put("a".to_string(), RedisType::bulk_string("1"), Some(10), 100);
    store.put("b".to_string(), RedisType::bulk_string("2"), None, 100);
    store.put("c".to_string(), RedisType::bulk_string("3"), Some(20), 100);
    assert_eq!(store.get("a", 105), Some(RedisType::bulk_string("1")));
    assert_eq!(store.get("a", 110), Some(RedisType::bulk_string("1")));
    assert!(store.contains_key("a"));
    assert_eq!(store.get("a", 111), None);
    assert!(!store.contains_key("a"));
    assert!(store.contains_key("b"));
    assert!(store.contains_key("c"));
    assert_eq!(store.get("c", 111), Some(RedisType::bulk_string("3")));
    assert_eq!(store.get("b", 111), Some(RedisType::bulk_string("2")));
    // an entry that expired is gone for good, whatever the clock says later
    assert_eq!(store.get("a", 0), None);
}

#[test]
fn deadline_saturates() {
    let mut store = Store::new();
    store.put("a".to_string(), RedisType::bulk_string("1"), Some(u64::MAX), 5);
    assert_eq!(store.get("a", u64::MAX), Some(RedisType::bulk_string("1")));
    store.put("z".to_string(), RedisType::bulk_string("1"), Some(0), 5);
    assert_eq!(store.get("z", 5), Some(RedisType::bulk_string("1")));
    assert_eq!(store.get("z", 6), None);
}

#[test]
fn peek_looks_and_changes_nothing() {
    let mut store = Store::new();
    assert_eq!(store.peek("a", 0), Lookup::Missing);
    store.put("a".to_string(), RedisType::bulk_string("1"), Some(10), 100);
    store.put("b".to_string(), RedisType::bulk_string("2"), None, 100);
    assert_eq!(store.peek("a", 110), Lookup::Found(RedisType::bulk_string("1")));
    assert_eq!(store.peek("a", 111), Lookup::Expired);
    // the entry is still there: a look removes nothing
    assert!(store.contains_key("a"));
    assert_eq!(store.peek("a", 111), Lookup::Expired);
    assert_eq!(store.peek("a", 105), Lookup::Found(RedisType::bulk_string("1")));
    assert_eq!(
        store.peek("b", u64::MAX),
        Lookup::Found(RedisType::bulk_string("2"))
    );
    assert_eq!(store.get("a", 111), None);
    assert_eq!(store.peek("a", 111), Lookup::Missing);
}
