use poe_gem_calculator::cache::has_json_ext_exec;
use poe_gem_calculator::cache::FileCache;
use poe_gem_calculator::envelope::decode_entry;
use poe_gem_calculator::envelope::encode_entry;
use poe_gem_calculator::envelope::CacheEntry;
use poe_gem_calculator::envelope::CacheError;
use poe_gem_calculator::strutil::str_contains;
use poe_gem_calculator::strutil::str_ends_with;
use poe_gem_calculator::strutil::str_eq;

#[test]
fn encode_produces_the_documented_envelope() {
    let entry = CacheEntry {
        data: "{\"x\":1}".to_string(),
        timestamp_micros: 1_234_567_890_000_000,
        ttl_minutes: 60,
    };
    let text = encode_entry(&entry).unwrap();
    assert_eq!(
        text,
        "{\"data\":{\"x\":1},\"timestamp\":\"2009-02-13T23:31:30.000000Z\",\"ttl_minutes\":60}"
    );
}

#[test]
fn decode_reads_back_what_encode_wrote() {
    let entry = CacheEntry {
        data: "[true,null,\"},\\\"ttl_minutes\\\":9}\"]".to_string(),
        timestamp_micros: 1_700_000_000_123_456,
        ttl_minutes: -5,
    };
    let text = encode_entry(&entry).unwrap();
    let back = decode_entry(text.as_str()).unwrap();
    assert_eq!(back.data, entry.data);
    assert_eq!(back.timestamp_micros, entry.timestamp_micros);
    assert_eq!(back.ttl_minutes, entry.ttl_minutes);
}

#[test]
fn decode_rejects_malformed_texts() {
    for text in [
        "",
        "{}",
        "not json at all",
        "{\"data\":1,\"ttl_minutes\":60}",
        "{\"data\":1,\"timestamp\":\"2009-02-13T23:31:30Z\",\"ttl_minutes\":}",
        "{\"data\":1,\"timestamp\":\"not a date\",\"ttl_minutes\":60}",
        "{\"data\":1,\"timestamp\":\"2009-02-13T23:31:30Z\",\"ttl_minutes\":99999999999999999999}",
    ] {
        assert_eq!(decode_entry(text).unwrap_err(), CacheError::Deserialization);
    }
}

#[test]
fn entry_expiry_follows_the_deadline() {
    let entry = CacheEntry { data: "0".to_string(), timestamp_micros: 1_000, ttl_minutes: 2 };
    assert!(!entry.is_expired_at(1_000));
    assert!(!entry.is_expired_at(1_000 + 120_000_000));
    assert!(entry.is_expired_at(1_001 + 120_000_000));
    assert_eq!(entry.age_minutes_at(1_000 + 179_000_000), 2);

    let negative = CacheEntry { data: "0".to_string(), timestamp_micros: 1_000, ttl_minutes: -1 };
    assert!(negative.is_expired_at(1_000));
}

#[test]
fn cache_path_sanitizes_keys() {
    let cache = FileCache::new("cache");
    assert_eq!(cache.get_cache_path("skillGems_Standard"), "cache/skillGems_Standard.json");
    assert_eq!(cache.get_cache_path("a b/c:d"), "cache/a_b_c_d.json");
    assert_eq!(cache.get_cache_path("Keep-This_1"), "cache/Keep-This_1.json");
    assert_eq!(cache.get_cache_path("tëst"), "cache/t_st.json");
    assert_eq!(cache.get_cache_path(""), "cache/.json");
}

#[test]
fn cache_path_is_deterministic_and_respects_the_root() {
    let cache = FileCache::new("cache");
    assert_eq!(cache.get_cache_path("same key"), cache.get_cache_path("same key"));

    let slashed = FileCache::new("data/");
    assert_eq!(slashed.get_cache_path("k"), "data/k.json");
    let bare = FileCache::new("");
    assert_eq!(bare.get_cache_path("k"), "k.json");
}

#[test]
fn json_extension_follows_file_name_rules() {
    assert!(has_json_ext_exec("a.json"));
    assert!(has_json_ext_exec("cache/a.b.json"));
    assert!(!has_json_ext_exec(".json"));
    assert!(!has_json_ext_exec("cache/.json"));
    assert!(!has_json_ext_exec("cache/a.txt"));
    assert!(!has_json_ext_exec("cache/ajson"));
}

#[test]
fn string_helpers_scan_correctly() {
    assert!(str_eq("abc", "abc"));
    assert!(!str_eq("abc", "abd"));
    assert!(!str_eq("abc", "ab"));
    assert!(str_contains("Hardcore SSF Settlers", "SSF"));
    assert!(!str_contains("Standard", "SSF"));
    assert!(str_contains("anything", ""));
    assert!(str_ends_with("file.json", ".json"));
    assert!(!str_ends_with("file.jso", ".json"));
}
