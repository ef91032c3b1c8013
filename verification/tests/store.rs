use restock_notify::checked::{modify_checked_map, CheckedMap};
use restock_notify::ratelimit::RateLimitStore;
use restock_notify::target::ScrapingTarget;

fn target(key: &str, name: &str) -> ScrapingTarget {
    ScrapingTarget {
        name: name.to_string(),
        url: "https://example.com".to_string(),
        key: key.to_string(),
        active: Some(true),
        is_test: None,
    }
}

#[test]
fn absent_key_is_not_limited() {
    let store = RateLimitStore::new();
    assert!(!store.is_limited("amd", 0));
    assert!(!store.is_limited("amd", i64::MAX - 200));
}

#[test]
fn set_limit_expires_after_two_minutes() {
    let mut store = RateLimitStore::new();
    store.set_limit("newegg", 1_000);
    assert!(store.is_limited("newegg", 1_000));
    assert!(store.is_limited("newegg", 1_119));
    assert!(!store.is_limited("newegg", 1_120));
    assert!(!store.is_limited("amd", 1_000));
}

#[test]
fn set_limit_overwrites_stale_entry() {
    let mut store = RateLimitStore::new();
    store.set_limit("newegg", 1_000);
    store.set_limit("newegg", 5_000);
    assert_eq!(store.entries().len(), 1);
    assert_eq!(store.entries()[0], ("newegg".to_string(), 5_120));
    assert!(store.is_limited("newegg", 1_130));
}

#[test]
fn merge_prefers_the_newer_entries() {
    let mut store = RateLimitStore::new();
    store.set_limit("amd", 100);
    store.set_limit("newegg", 100);
    let mut updates = RateLimitStore::new();
    updates.set_limit("newegg", 900);
    updates.set_limit("bnh", 900);
    store.merge(&updates);
    let mut entries = store.entries().clone();
    entries.sort();
    assert_eq!(
        entries,
        vec![
            ("amd".to_string(), 220),
            ("bnh".to_string(), 1_020),
            ("newegg".to_string(), 1_020),
        ]
    );
}

#[test]
fn checked_map_counts_per_key() {
    let mut map = CheckedMap::new();
    modify_checked_map(&target("amd", "Ryzen"), &mut map);
    modify_checked_map(&target("amd", "Radeon"), &mut map);
    modify_checked_map(&target("newegg", "GPU"), &mut map);
    let entries = map.entries();
    assert_eq!(entries.len(), 2);
    assert_eq!(entries[0].key, "amd");
    assert_eq!(entries[0].count, 2);
    assert_eq!(
        entries[0].names,
        vec!["Ryzen".to_string(), "Radeon".to_string()]
    );
    assert_eq!(entries[1].key, "newegg");
    assert_eq!(entries[1].count, 1);
    assert_eq!(entries[1].names, vec!["GPU".to_string()]);
}
