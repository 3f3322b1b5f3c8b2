use poe_gem_calculator::cache::FileCache;
use poe_gem_calculator::envelope::CacheError;
use poe_gem_calculator::store::Store;

const MINUTE: i64 = 60_000_000;
const T0: i64 = 1_234_567_890_000_000;

#[test]
fn test_cache_basic_operations() {
    let cache = FileCache::new("test_cache");
    let mut store = Store::new();

    let result = cache.get_at(&mut store, "test_key", T0).unwrap();
    assert!(result.is_none());

    cache.set_at(&mut store, "test_key", "test_value", 60, T0).unwrap();
    let result = cache.get_at(&mut store, "test_key", T0).unwrap();
    assert_eq!(result, Some("test_value".to_string()));

    cache.delete(&mut store, "test_key");
    let result = cache.get_at(&mut store, "test_key", T0).unwrap();
    assert!(result.is_none());
}

#[test]
fn test_cache_expiration() {
    let cache = FileCache::new("test_cache");
    let mut store = Store::new();

    cache.set_at(&mut store, "test_key", "test_value", 0, T0).unwrap();

    let result = cache.get_at(&mut store, "test_key", T0 + 1).unwrap();
    assert!(result.is_none());
}

#[test]
fn test_cache_clear() {
    let cache = FileCache::new("test_cache");
    let mut store = Store::new();

    cache.set_at(&mut store, "key1", "value1", 60, T0).unwrap();
    cache.set_at(&mut store, "key2", "value2", 60, T0).unwrap();

    let count = cache.clear(&mut store);
    assert_eq!(count, 2);

    let result1 = cache.get_at(&mut store, "key1", T0).unwrap();
    let result2 = cache.get_at(&mut store, "key2", T0).unwrap();
    assert!(result1.is_none());
    assert!(result2.is_none());
}

#[test]
fn round_trip_within_ttl() {
    let cache = FileCache::new("cache");
    let mut store = Store::new();
    cache.set_at(&mut store, "k", "[1,2,3]", 5, T0).unwrap();
    let r = cache.get_at(&mut store, "k", T0 + 5 * MINUTE).unwrap();
    assert_eq!(r, Some("[1,2,3]".to_string()));
    let r = cache.get_at(&mut store, "k", T0 + 5 * MINUTE + 1).unwrap();
    assert!(r.is_none());
}

#[test]
fn expired_get_evicts_backing_file() {
    let cache = FileCache::new("cache");
    let mut store = Store::new();
    cache.set_at(&mut store, "stale", "1", 0, T0).unwrap();
    assert_eq!(store.file_count(), 1);
    let path = cache.get_cache_path("stale");
    assert!(store.read(path.as_str()).is_some());

    let r = cache.get_at(&mut store, "stale", T0 + 1).unwrap();
    assert!(r.is_none());
    assert!(store.read(path.as_str()).is_none());
    assert_eq!(store.file_count(), 0);
}

#[test]
fn delete_absent_key_is_a_no_op() {
    let cache = FileCache::new("cache");
    let mut store = Store::new();
    cache.set_at(&mut store, "other", "1", 60, T0).unwrap();
    cache.delete(&mut store, "missing");
    cache.delete(&mut store, "missing");
    assert_eq!(store.file_count(), 1);
    let r = cache.get_at(&mut store, "other", T0).unwrap();
    assert_eq!(r, Some("1".to_string()));
}

#[test]
fn overwrite_replaces_prior_value() {
    let cache = FileCache::new("cache");
    let mut store = Store::new();
    cache.set_at(&mut store, "k", "old", 60, T0).unwrap();
    cache.set_at(&mut store, "k", "new", 60, T0 + 1).unwrap();
    assert_eq!(store.file_count(), 1);
    let r = cache.get_at(&mut store, "k", T0 + 2).unwrap();
    assert_eq!(r, Some("new".to_string()));
}

#[test]
fn corrupt_entry_is_an_error_not_a_miss() {
    let cache = FileCache::new("cache");
    let mut store = Store::new();
    cache.set_at(&mut store, "k", "v", 60, T0).unwrap();
    let path = cache.get_cache_path("k");
    store.write(path.as_str(), "not an entry".to_string());
    let r = cache.get_at(&mut store, "k", T0);
    assert_eq!(r, Err(CacheError::Deserialization));
}

#[test]
fn set_far_outside_calendar_range_fails() {
    let cache = FileCache::new("cache");
    let mut store = Store::new();
    let r = cache.set_at(&mut store, "k", "v", 60, i64::MAX);
    assert_eq!(r, Err(CacheError::Serialization));
    assert_eq!(store.file_count(), 0);
}

#[test]
fn clear_skips_files_without_json_extension() {
    let cache = FileCache::new("cache");
    let mut store = Store::new();
    cache.set_at(&mut store, "a", "1", 60, T0).unwrap();
    store.write("cache/notes.txt", "keep me".to_string());
    let count = cache.clear(&mut store);
    assert_eq!(count, 1);
    assert_eq!(store.file_count(), 1);
    assert!(store.read("cache/notes.txt").is_some());
}

#[test]
fn cleanup_removes_only_expired_parsable_entries() {
    let cache = FileCache::new("cache");
    let mut store = Store::new();
    cache.set_at(&mut store, "live", "1", 60, T0).unwrap();
    cache.set_at(&mut store, "stale", "2", 0, T0).unwrap();
    cache.set_at(&mut store, "gone", "3", 1, T0 - 10 * MINUTE).unwrap();
    store.write("cache/broken.json", "{oops".to_string());
    store.write("cache/readme.txt", "not cached".to_string());

    let removed = cache.cleanup_expired_at(&mut store, T0 + 1);
    assert_eq!(removed, 2);
    assert_eq!(store.file_count(), 3);
    let r = cache.get_at(&mut store, "live", T0 + 1).unwrap();
    assert_eq!(r, Some("1".to_string()));
    assert!(store.read("cache/broken.json").is_some());
    assert!(store.read("cache/readme.txt").is_some());
}

#[test]
fn scenario_leagues_round_trip_and_expiry() {
    let cache = FileCache::new("cache");
    let mut store = Store::new();
    let payload = "{\"leagues\":[{\"name\":\"Standard\"},{\"name\":\"Hardcore\"}]}";
    cache.set_at(&mut store, "leagues", payload, 60, T0).unwrap();

    let within = cache.get_at(&mut store, "leagues", T0 + 59 * MINUTE).unwrap();
    assert_eq!(within, Some(payload.to_string()));

    let after = cache.get_at(&mut store, "leagues", T0 + 60 * MINUTE + 1).unwrap();
    assert!(after.is_none());
    let path = cache.get_cache_path("leagues");
    assert!(store.read(path.as_str()).is_none());
}

#[test]
fn wall_clock_operations_run() {
    let cache = FileCache::new("cache");
    let mut store = Store::new();
    cache.set(&mut store, "now_key", "now_value", 60).unwrap();
    let r = cache.get(&mut store, "now_key").unwrap();
    assert_eq!(r, Some("now_value".to_string()));
    let removed = cache.cleanup_expired(&mut store);
    assert_eq!(removed, 0);
    assert_eq!(store.file_count(), 1);
}
