//! The TTL caches: shared handles and the pure table underneath.

use flight_tracker_tui::cache::{Cache, CacheEntry, CacheTable, PersistentCache};

#[test]
fn test_cache_set_and_get() {
    let cache: Cache<String> = Cache::new(60);

    cache.set("key1".to_string(), "value1".to_string());

    assert_eq!(cache.get("key1"), Some("value1".to_string()));
    assert_eq!(cache.get("nonexistent"), None);
}

#[test]
fn test_cache_overwrite() {
    let cache: Cache<String> = Cache::new(60);

    cache.set("key1".to_string(), "value1".to_string());
    cache.set("key1".to_string(), "value2".to_string());

    assert_eq!(cache.get("key1"), Some("value2".to_string()));
}

#[test]
fn test_cache_with_option_type() {
    let cache: Cache<Option<i32>> = Cache::new(60);

    cache.set("some".to_string(), Some(42));
    cache.set("none".to_string(), None);

    assert_eq!(cache.get("some"), Some(Some(42)));
    assert_eq!(cache.get("none"), Some(None));
}

#[test]
fn test_cache_clone() {
    let cache1: Cache<String> = Cache::new(60);
    cache1.set("key1".to_string(), "value1".to_string());

    let cache2 = cache1.clone();

    // Both caches share the same underlying data
    assert_eq!(cache2.get("key1"), Some("value1".to_string()));

    cache2.set("key2".to_string(), "value2".to_string());
    assert_eq!(cache1.get("key2"), Some("value2".to_string()));
}

#[test]
fn test_cache_table_expiration() {
    // The pure table takes the clock as an argument, so expiry needs no
    // sleeping: set at 1000 with a 60-second TTL, visible at 1059, gone
    // at 1060.
    let mut table: CacheTable<String> = CacheTable::new(60);
    table.insert("key1".to_string(), "value1".to_string(), 1000);

    assert_eq!(table.lookup("key1", 1000), Some(&"value1".to_string()));
    assert_eq!(table.lookup("key1", 1059), Some(&"value1".to_string()));
    assert_eq!(table.lookup("key1", 1060), None);
    assert_eq!(table.lookup("key1", 2000), None);
}

#[test]
fn test_cache_table_clear_expired_exact() {
    // Entries aged past the TTL are swept; younger ones stay untouched.
    let mut table: CacheTable<i32> = CacheTable::new(60);
    table.insert("old".to_string(), 1, 1000);
    table.insert("fresh".to_string(), 2, 1050);

    assert_eq!(table.len(), 2);

    table.clear_expired(1070);

    assert_eq!(table.len(), 1);
    assert_eq!(table.lookup("old", 1070), None);
    assert_eq!(table.lookup("fresh", 1070), Some(&2));
}

#[test]
fn test_cache_table_expired_entry_not_deleted_by_lookup() {
    let mut table: CacheTable<i32> = CacheTable::new(10);
    table.insert("k".to_string(), 7, 100);

    assert_eq!(table.lookup("k", 500), None);
    // The miss did not remove the entry; only a sweep does.
    assert_eq!(table.len(), 1);
}

#[test]
fn test_persistent_cache_export_restore() {
    let cache: PersistentCache<String> = PersistentCache::new(86400);
    cache.set("UA123".to_string(), "cached".to_string());

    let snapshot = cache.export();
    assert_eq!(snapshot.len(), 1);
    assert_eq!(snapshot[0].key, "UA123");
    assert_eq!(snapshot[0].value, "cached");

    let reloaded: PersistentCache<String> = PersistentCache::new(86400);
    reloaded.restore(snapshot);
    assert_eq!(reloaded.get("UA123"), Some("cached".to_string()));
}

#[test]
fn test_persistent_cache_restore_collapses_duplicates() {
    let reloaded: PersistentCache<i32> = PersistentCache::new(86400);
    let entries = vec![
        CacheEntry { key: "k".to_string(), inserted_at: 0, value: 1 },
        CacheEntry { key: "k".to_string(), inserted_at: 0, value: 2 },
    ];
    reloaded.restore(entries);
    assert_eq!(reloaded.len(), 1);
}
