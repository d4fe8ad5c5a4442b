use ksecret::cache::{Cache, CacheEntry, TTL_MILLIS};

#[test]
fn value_is_served_until_expiry() {
    let mut c = Cache::new();
    c.set_at("dev", "db", "v1".to_string(), 1_000);
    assert_eq!(c.get_at("dev", "db", 1_000), Some("v1".to_string()));
    assert_eq!(c.get_at("dev", "db", 1_000 + 299_999), Some("v1".to_string()));
    assert_eq!(c.get_at("dev", "db", 1_000 + 300_000), None);
    assert_eq!(c.get_at("dev", "db", 1_000_000), None);
    assert_eq!(TTL_MILLIS, 300_000);
}

#[test]
fn missing_key_is_absent() {
    let c = Cache::new();
    assert_eq!(c.get_at("dev", "db", 0), None);
}

#[test]
fn set_overwrites_and_restamps() {
    let mut c = Cache::new();
    c.set_at("dev", "db", "v1".to_string(), 0);
    c.set_at("dev", "db", "v2".to_string(), 200_000);
    assert_eq!(c.get_at("dev", "db", 400_000), Some("v2".to_string()));
    assert_eq!(c.to_entries().len(), 1);
}

#[test]
fn keys_are_per_environment() {
    let mut c = Cache::new();
    c.set_at("dev", "db", "d".to_string(), 0);
    c.set_at("prod", "db", "p".to_string(), 0);
    assert_eq!(c.get_at("dev", "db", 1), Some("d".to_string()));
    assert_eq!(c.get_at("prod", "db", 1), Some("p".to_string()));
}

#[test]
fn delete_and_clear() {
    let mut c = Cache::new();
    c.set_at("dev", "a", "1".to_string(), 0);
    c.set_at("dev", "b", "2".to_string(), 0);
    c.delete("dev", "a");
    assert_eq!(c.get_at("dev", "a", 1), None);
    assert_eq!(c.get_at("dev", "b", 1), Some("2".to_string()));
    c.delete("dev", "missing");
    c.clear();
    assert_eq!(c.get_at("dev", "b", 1), None);
    assert_eq!(c.to_entries().len(), 0);
}

#[test]
fn expiry_saturates_at_largest_instant() {
    let mut c = Cache::new();
    c.set_at("dev", "a", "1".to_string(), i64::MAX - 5);
    let e = c.to_entries();
    assert_eq!(e[0].expires_at, i64::MAX);
}

#[test]
fn entries_round_trip_and_later_wins() {
    let entries = vec![
        CacheEntry { key: "dev:a".to_string(), value: "1".to_string(), expires_at: 10 },
        CacheEntry { key: "dev:b".to_string(), value: "2".to_string(), expires_at: 20 },
        CacheEntry { key: "dev:a".to_string(), value: "3".to_string(), expires_at: 30 },
    ];
    let c = Cache::from_entries(&entries);
    assert_eq!(c.get_at("dev", "a", 15), Some("3".to_string()));
    assert_eq!(c.get_at("dev", "b", 15), Some("2".to_string()));
    assert_eq!(c.to_entries().len(), 2);
}

#[test]
fn clock_based_set_then_get() {
    let mut c = Cache::new();
    c.set("dev", "x", "val".to_string());
    assert_eq!(c.get("dev", "x"), Some("val".to_string()));
}
