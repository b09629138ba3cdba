use std::time::{SystemTime, UNIX_EPOCH};
use tempfile::TempDir;
use writer_ai_service::cache::{CacheConfig, CacheEntry, CacheManager};
use writer_ai_service::errors::AppError;

fn now_secs() -> u64 {
    SystemTime::now()
        .duration_since(UNIX_EPOCH)
        .unwrap_or_default()
        .as_secs()
}

fn open(dir: &TempDir, enabled: bool, ttl_days: u64) -> CacheManager {
    let cache_path = dir.path().join("test_cache.sled");
    let config = CacheConfig {
        enabled,
        ttl_days,
        max_size_mb: 100,
    };
    CacheManager::new(cache_path.to_str().unwrap(), config).unwrap()
}

#[test]
fn test_cache_entry_serialization() {
    let entry = CacheEntry::new("Test response".to_string(), 30);
    let bytes = entry.to_bytes();
    let deserialized = CacheEntry::from_bytes(&bytes).unwrap();

    assert_eq!(entry.response, deserialized.response);
    assert_eq!(entry.created_at, deserialized.created_at);
    assert_eq!(entry.expires_at, deserialized.expires_at);
}

#[test]
fn test_cache_is_expired() {
    let entry = CacheEntry::new("Test response".to_string(), 30);
    assert!(!entry.is_expired());

    let now = now_secs();
    let mut expired_entry = CacheEntry::new("Expired response".to_string(), 30);
    expired_entry.created_at = now - 60 * 60 * 24 * 31;
    expired_entry.expires_at = now - 60 * 60 * 24;

    assert!(expired_entry.is_expired());
}

#[test]
fn test_cache_manager() {
    let temp_dir = TempDir::new().unwrap();
    let mut cache_manager = open(&temp_dir, true, 30);

    let text = "Test input text";
    let model = "test-model";
    let prompt_hash = 12345u64;
    let response = "Test response";

    cache_manager.store(text, response, model, prompt_hash).unwrap();
    let cached_response = cache_manager.lookup(text, model, prompt_hash).unwrap();
    assert_eq!(cached_response, Some(response.to_string()));

    let different_text = "Different text";
    let cached_response = cache_manager.lookup(different_text, model, prompt_hash).unwrap();
    assert_eq!(cached_response, None);

    let different_model = "different-model";
    let cached_response = cache_manager.lookup(text, different_model, prompt_hash).unwrap();
    assert_eq!(cached_response, None);

    let different_hash = 54321u64;
    let cached_response = cache_manager.lookup(text, model, different_hash).unwrap();
    assert_eq!(cached_response, None);

    cache_manager.clear().unwrap();
    let cached_response = cache_manager.lookup(text, model, prompt_hash).unwrap();
    assert_eq!(cached_response, None);
}

#[test]
fn cache_test_disabled_cache() {
    let temp_dir = TempDir::new().unwrap();
    let mut cache_manager = open(&temp_dir, false, 30);

    let text = "Test input text";
    let model = "test-model";
    let prompt_hash = 12345u64;
    let response = "Test response";

    cache_manager.store(text, response, model, prompt_hash).unwrap();
    let cached_response = cache_manager.lookup(text, model, prompt_hash).unwrap();
    assert_eq!(cached_response, None);
}

#[test]
fn test_cache_functionality() {
    let temp_dir = TempDir::new().unwrap();
    let mut cache_manager = open(&temp_dir, true, 30);

    let text = "Test input text";
    let model = "test-model";
    let prompt_hash = 12345u64;
    let response = "Test response";

    cache_manager.store(text, response, model, prompt_hash).unwrap();
    let cached_response = cache_manager.lookup(text, model, prompt_hash).unwrap();
    assert_eq!(cached_response, Some(response.to_string()));
}

#[test]
fn entry_encoding_is_exact() {
    let entry = CacheEntry::new_at("Hi there".to_string(), 1000, 2);
    assert_eq!(entry.created_at, 1000);
    assert_eq!(entry.expires_at, 1000 + 2 * 86400);
    assert_eq!(entry.to_bytes(), b"Hi there|1000|173800".to_vec());
}

#[test]
fn entry_expiry_saturates() {
    let entry = CacheEntry::new_at("x".to_string(), u64::MAX - 10, 1);
    assert_eq!(entry.expires_at, u64::MAX);
    let entry = CacheEntry::new_at("x".to_string(), 5, u64::MAX);
    assert_eq!(entry.expires_at, u64::MAX);
}

#[test]
fn entry_response_may_hold_separator() {
    let entry = CacheEntry::new_at("a|b|c".to_string(), 7, 0);
    let back = CacheEntry::from_bytes(&entry.to_bytes()).unwrap();
    assert_eq!(back.response, "a|b|c");
    assert_eq!(back.created_at, 7);
    assert_eq!(back.expires_at, 7);
}

#[test]
fn entry_round_trip_non_ascii_and_empty() {
    for text in ["", "héllo wörld ✓", "日本語"] {
        let entry = CacheEntry::new_at(text.to_string(), 42, 3);
        let back = CacheEntry::from_bytes(&entry.to_bytes()).unwrap();
        assert_eq!(back.response, text);
        assert_eq!(back.created_at, 42);
        assert_eq!(back.expires_at, 42 + 3 * 86400);
    }
}

#[test]
fn entry_decode_accepts_plus_sign_and_max() {
    let back = CacheEntry::from_bytes(b"r|+12|18446744073709551615").unwrap();
    assert_eq!(back.response, "r");
    assert_eq!(back.created_at, 12);
    assert_eq!(back.expires_at, u64::MAX);
}

#[test]
fn entry_decode_rejects_malformed() {
    let bad: [&[u8]; 8] = [
        b"no separators",
        b"one|5",
        b"r|x|5",
        b"r|5|",
        b"r||5",
        b"r|5|18446744073709551616",
        b"r|+|5",
        b"\xff\xfe|1|2",
    ];
    for b in bad {
        match CacheEntry::from_bytes(b) {
            Err(AppError::CacheError(_)) => {}
            _ => panic!("accepted a malformed record"),
        }
    }
}

#[test]
fn entry_expires_at_its_expiry_second() {
    let entry = CacheEntry::new_at("x".to_string(), 100, 0);
    assert!(entry.is_expired_at(100));
    assert!(entry.is_expired_at(101));
    assert!(!entry.is_expired_at(99));
    let fresh = CacheEntry::new("Hi there".to_string(), 0);
    assert!(fresh.is_expired());
}

#[test]
fn generate_key_is_eight_bytes_and_stable() {
    let k1 = CacheManager::generate_key("Hello world", "m1", 0);
    let k2 = CacheManager::generate_key("Hello world", "m1", 0);
    assert_eq!(k1.len(), 8);
    assert_eq!(k1, k2);
    assert_ne!(k1, CacheManager::generate_key("Hello world", "m2", 0));
    assert_ne!(k1, CacheManager::generate_key("Hello world", "m1", 1));
    assert_ne!(k1, CacheManager::generate_key("Hello World", "m1", 0));
    assert_ne!(
        CacheManager::generate_key("x", "a|1", 2),
        CacheManager::generate_key("2|x", "a", 1)
    );
}

#[test]
fn scenario_store_then_lookup_other_model() {
    let temp_dir = TempDir::new().unwrap();
    let mut cache = open(&temp_dir, true, 30);
    cache.store("Hello world", "Hi there", "m1", 0).unwrap();
    assert_eq!(
        cache.lookup("Hello world", "m1", 0).unwrap(),
        Some("Hi there".to_string())
    );
    assert_eq!(cache.lookup("Hello world", "m2", 0).unwrap(), None);
}

#[test]
fn scenario_zero_ttl_expires() {
    let temp_dir = TempDir::new().unwrap();
    let mut cache = open(&temp_dir, true, 0);
    let t = 5_000u64;
    cache.store_at("Hello world", "Hi there", "m1", 0, t).unwrap();
    let key = CacheManager::generate_key("Hello world", "m1", 0);
    let stored = cache.db.get(&key).unwrap().unwrap();
    let entry = CacheEntry::from_bytes(&stored).unwrap();
    assert!(entry.is_expired_at(t));
    assert_eq!(cache.lookup_at("Hello world", "m1", 0, t).unwrap(), None);
    assert!(cache.db.get(&key).unwrap().is_none());
}

#[test]
fn scenario_zero_ttl_with_clock() {
    let temp_dir = TempDir::new().unwrap();
    let mut cache = open(&temp_dir, true, 0);
    cache.store("Hello world", "Hi there", "m1", 0).unwrap();
    assert_eq!(cache.lookup("Hello world", "m1", 0).unwrap(), None);
    let key = CacheManager::generate_key("Hello world", "m1", 0);
    assert!(cache.db.get(&key).unwrap().is_none());
}

#[test]
fn round_trip_until_expiry() {
    let temp_dir = TempDir::new().unwrap();
    let mut cache = open(&temp_dir, true, 1);
    cache.store_at("text", "answer", "model", 9, 100).unwrap();
    assert_eq!(
        cache.lookup_at("text", "model", 9, 100 + 86399).unwrap(),
        Some("answer".to_string())
    );
    assert_eq!(cache.lookup_at("text", "model", 9, 100 + 86400).unwrap(), None);
    assert_eq!(cache.lookup_at("text", "model", 9, 100).unwrap(), None);
}

#[test]
fn last_write_wins() {
    let temp_dir = TempDir::new().unwrap();
    let mut cache = open(&temp_dir, true, 1);
    cache.store_at("t", "first", "m", 0, 10).unwrap();
    cache.store_at("t", "second", "m", 0, 10).unwrap();
    assert_eq!(cache.lookup_at("t", "m", 0, 10).unwrap(), Some("second".to_string()));
}

#[test]
fn corrupt_record_is_a_miss_and_stays() {
    let temp_dir = TempDir::new().unwrap();
    let mut cache = open(&temp_dir, true, 1);
    let key = CacheManager::generate_key("t", "m", 0);
    cache.db.insert(key.clone(), b"garbage".to_vec()).unwrap();
    assert_eq!(cache.lookup_at("t", "m", 0, 10).unwrap(), None);
    assert!(cache.db.get(&key).unwrap().is_some());
}

#[test]
fn cleanup_removes_only_expired() {
    let temp_dir = TempDir::new().unwrap();
    let mut cache = open(&temp_dir, true, 1);
    cache.store_at("old", "a", "m", 0, 0).unwrap();
    cache.store_at("new", "b", "m", 0, 1_000_000).unwrap();
    let junk = b"junk-key".to_vec();
    cache.db.insert(junk.clone(), b"not a record".to_vec()).unwrap();
    let removed = cache.cleanup_expired_at(500_000).unwrap();
    assert_eq!(removed, 1);
    assert_eq!(cache.lookup_at("old", "m", 0, 0).unwrap(), None);
    assert_eq!(cache.lookup_at("new", "m", 0, 1_000_000).unwrap(), Some("b".to_string()));
    assert!(cache.db.get(&junk).unwrap().is_some());
    assert_eq!(cache.cleanup_expired_at(500_000).unwrap(), 0);
}

#[test]
fn cleanup_counts_every_expired_record() {
    let temp_dir = TempDir::new().unwrap();
    let mut cache = open(&temp_dir, true, 1);
    for t in ["a", "b", "c"] {
        cache.store_at(t, "r", "m", 0, 0).unwrap();
    }
    cache.store_at("d", "r", "m", 0, 10 * 86400).unwrap();
    assert_eq!(cache.cleanup_expired_at(86400).unwrap(), 3);
    assert_eq!(cache.lookup_at("d", "m", 0, 86400).unwrap(), Some("r".to_string()));
}

#[test]
fn startup_sweep_removes_expired() {
    let temp_dir = TempDir::new().unwrap();
    let path = temp_dir.path().join("test_cache.sled");
    let config = CacheConfig { enabled: true, ttl_days: 1, max_size_mb: 100 };
    {
        let mut cache = CacheManager::new(path.to_str().unwrap(), config.clone()).unwrap();
        cache.store_at("old", "a", "m", 0, 0).unwrap();
        cache.db.flush().unwrap();
    }
    let cache = CacheManager::new(path.to_str().unwrap(), config).unwrap();
    let key = CacheManager::generate_key("old", "m", 0);
    assert!(cache.db.get(&key).unwrap().is_none());
}

#[test]
fn cleanup_disabled_is_noop() {
    let temp_dir = TempDir::new().unwrap();
    let mut cache = open(&temp_dir, false, 1);
    assert_eq!(cache.cleanup_expired_at(u64::MAX).unwrap(), 0);
    assert_eq!(cache.cleanup_expired().unwrap(), 0);
}
