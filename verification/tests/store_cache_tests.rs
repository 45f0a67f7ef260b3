use crabcut::cache::RedirectCache;
use crabcut::store::UrlStore;

#[test]
fn store_lookup_distinguishes_absent_from_present() {
    let mut store = UrlStore::new();
    assert_eq!(store.lookup("abc123"), None);
    store.insert("https://example.com/a", "abc123", 7);
    assert_eq!(store.lookup("abc123").as_deref(), Some("https://example.com/a"));
    assert_eq!(store.lookup("other"), None);
}

#[test]
fn store_insert_is_idempotent_and_keeps_the_first_record() {
    let mut store = UrlStore::new();
    store.insert("https://example.com/a", "abc123", 7);
    store.insert("https://example.com/b", "abc123", 9);
    assert_eq!(store.lookup("abc123").as_deref(), Some("https://example.com/a"));
    assert_eq!(store.records.len(), 1);
    assert_eq!(store.records[0].created_at, 7);
}

#[test]
fn store_availability_reflects_contents() {
    let mut store = UrlStore::new();
    assert!(store.is_alias_available("abc123"));
    store.insert("https://example.com/a", "abc123", 1);
    assert!(!store.is_alias_available("abc123"));
    assert!(store.is_alias_available("abc124"));
}

#[test]
fn store_increment_is_atomic_per_record_and_skips_missing_codes() {
    let mut store = UrlStore::new();
    store.insert("https://example.com/a", "abc123", 1);
    store.insert("https://example.com/b", "xyz789", 1);
    store.increment_click_count("abc123");
    store.increment_click_count("abc123");
    store.increment_click_count("missing");
    assert_eq!(store.click_count_of("abc123"), Some(2));
    assert_eq!(store.click_count_of("xyz789"), Some(0));
    assert_eq!(store.click_count_of("missing"), None);
}

#[test]
fn cache_miss_and_expiry_read_as_nothing() {
    let mut cache = RedirectCache::new();
    assert_eq!(cache.get("abc123", 0), None);
    cache.set_with_expiry("abc123", "https://example.com/a", 3600, 100);
    assert_eq!(cache.get("abc123", 200).as_deref(), Some("https://example.com/a"));
    assert_eq!(cache.get("abc123", 3700), None);
}

#[test]
fn cache_set_overwrites_value_and_expiry() {
    let mut cache = RedirectCache::new();
    cache.set_with_expiry("abc123", "https://example.com/a", 3600, 0);
    cache.set_with_expiry("abc123", "https://example.com/b", 60, 10);
    assert_eq!(cache.get("abc123", 20).as_deref(), Some("https://example.com/b"));
    assert_eq!(cache.expiry_of("abc123"), Some(70));
}

#[test]
fn cache_refresh_extends_life_without_changing_the_value() {
    let mut cache = RedirectCache::new();
    cache.set_with_expiry("abc123", "https://example.com/a", 3600, 0);
    cache.refresh_expiry("abc123", 3600, 1000);
    assert_eq!(cache.expiry_of("abc123"), Some(4600));
    assert_eq!(cache.get("abc123", 4000).as_deref(), Some("https://example.com/a"));
    cache.refresh_expiry("missing", 3600, 1000);
    assert_eq!(cache.expiry_of("missing"), None);
}

#[test]
fn cache_refresh_does_not_resurrect_an_expired_entry() {
    let mut cache = RedirectCache::new();
    cache.set_with_expiry("abc123", "https://example.com/a", 100, 0);
    cache.refresh_expiry("abc123", 3600, 500);
    assert_eq!(cache.expiry_of("abc123"), Some(100));
    assert_eq!(cache.get("abc123", 500), None);
}

#[test]
fn unavailable_cache_swallows_reads_and_writes() {
    let mut cache = RedirectCache::new();
    cache.set_with_expiry("abc123", "https://example.com/a", 3600, 0);
    cache.set_available(false);
    assert_eq!(cache.get("abc123", 10), None);
    cache.set_with_expiry("xyz789", "https://example.com/b", 3600, 10);
    assert_eq!(cache.expiry_of("xyz789"), None);
    cache.set_available(true);
    assert_eq!(cache.get("abc123", 10).as_deref(), Some("https://example.com/a"));
}
