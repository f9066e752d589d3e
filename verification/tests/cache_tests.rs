//! Behavior of the result cache: time-to-live expiry, wholesale
//! invalidation, and key-substring invalidation.

use tock_ui::cache::{get_cache, CommandCache};
use tock_ui::types::CommandResult;

fn ok_result(output: &str) -> CommandResult {
    CommandResult { success: true, output: output.to_string(), error: None }
}

#[test]
fn get_within_ttl_returns_stored_result() {
    let mut cache = CommandCache::new(60);
    cache.set("key a".to_string(), ok_result("hello"), 1_000);
    let got = cache.get("key a", 1_000).expect("fresh entry expected");
    assert!(got.success);
    assert_eq!(got.output, "hello");
    assert_eq!(got.error, None);
    let later = cache.get("key a", 60_999).expect("entry still within ttl");
    assert_eq!(later.output, "hello");
}

#[test]
fn get_after_ttl_returns_nothing() {
    let mut cache = CommandCache::new(60);
    cache.set("key a".to_string(), ok_result("hello"), 1_000);
    assert!(cache.get("key a", 61_000).is_none());
}

#[test]
fn expired_entry_is_removed_on_lookup() {
    let mut cache = CommandCache::new(60);
    cache.set("key a".to_string(), ok_result("hello"), 1_000);
    assert!(cache.get("key a", 100_000).is_none());
    // Lazy expiry removed the entry: even a lookup at a time at which the
    // original entry would have been fresh now misses.
    assert!(cache.get("key a", 2_000).is_none());
}

#[test]
fn set_overwrites_and_resets_age() {
    let mut cache = CommandCache::new(60);
    cache.set("key a".to_string(), ok_result("old"), 0);
    cache.set("key a".to_string(), ok_result("new"), 50_000);
    // 100 s after the first insertion but only 50 s after the overwrite.
    let got = cache.get("key a", 100_000).expect("overwritten entry is fresh");
    assert_eq!(got.output, "new");
}

#[test]
fn missing_key_returns_nothing() {
    let mut cache = CommandCache::new(60);
    cache.set("key a".to_string(), ok_result("hello"), 1_000);
    assert!(cache.get("key b", 1_000).is_none());
}

#[test]
fn invalidate_all_empties_the_cache() {
    let mut cache = CommandCache::new(60);
    cache.set("key a".to_string(), ok_result("one"), 1_000);
    cache.set("key b".to_string(), ok_result("two"), 1_000);
    cache.invalidate();
    assert!(cache.get("key a", 1_001).is_none());
    assert!(cache.get("key b", 1_001).is_none());
}

#[test]
fn invalidate_pattern_removes_exactly_matching_keys() {
    let mut cache = CommandCache::new(60);
    cache.set("report --date 2024-01-05".to_string(), ok_result("jan"), 1_000);
    cache.set("report --date 2024-02-05".to_string(), ok_result("feb"), 1_000);
    cache.set("current".to_string(), ok_result("now"), 1_000);
    cache.invalidate_pattern("2024-01");
    assert!(cache.get("report --date 2024-01-05", 1_001).is_none());
    assert_eq!(cache.get("report --date 2024-02-05", 1_001).unwrap().output, "feb");
    assert_eq!(cache.get("current", 1_001).unwrap().output, "now");
}

#[test]
fn invalidate_pattern_with_empty_pattern_removes_everything() {
    let mut cache = CommandCache::new(60);
    cache.set("key a".to_string(), ok_result("one"), 1_000);
    cache.set("key b".to_string(), ok_result("two"), 1_000);
    cache.invalidate_pattern("");
    assert!(cache.get("key a", 1_001).is_none());
    assert!(cache.get("key b", 1_001).is_none());
}

#[test]
fn default_cache_keeps_entries_for_sixty_seconds() {
    let mut cache = get_cache();
    cache.set("key".to_string(), ok_result("v"), 0);
    assert!(cache.get("key", 59_999).is_some());
    assert!(cache.get("key", 60_000).is_none());
}

#[test]
fn huge_ttl_saturates_instead_of_overflowing() {
    let mut cache = CommandCache::new(u64::MAX);
    cache.set("key".to_string(), ok_result("v"), 0);
    assert!(cache.get("key", u64::MAX - 1).is_some());
}

#[test]
fn duplicate_copies_every_field() {
    let original = CommandResult {
        success: false,
        output: "text".to_string(),
        error: Some("reason".to_string()),
    };
    let copy = original.duplicate();
    assert_eq!(copy.success, original.success);
    assert_eq!(copy.output, original.output);
    assert_eq!(copy.error, original.error);
}

#[test]
fn stored_result_is_a_deep_copy() {
    let mut cache = CommandCache::new(60);
    let original = CommandResult {
        success: true,
        output: "body".to_string(),
        error: Some("warning".to_string()),
    };
    cache.set("key".to_string(), original, 0);
    let mut first = cache.get("key", 1).unwrap();
    first.output.push_str(" mutated");
    let second = cache.get("key", 2).unwrap();
    assert_eq!(second.output, "body");
    assert_eq!(second.error, Some("warning".to_string()));
}
