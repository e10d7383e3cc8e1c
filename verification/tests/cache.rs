use sleet::orchestration::adapter_types::{CacheConfig, EvictionPolicy};
use sleet::orchestration::cache::{CacheEntry, SelectionCache};

const SECOND: i64 = 1_000_000_000;

fn cache(max_entries: usize, policy: EvictionPolicy) -> SelectionCache<String> {
    SelectionCache::new(CacheConfig { max_entries, ttl_seconds: 60, eviction_policy: policy })
}

#[test]
fn entries_expire_after_their_time_to_live() {
    let e = CacheEntry::new(1u8, 0);
    assert!(!e.is_expired(60, 60 * SECOND));
    assert!(!e.is_expired(60, 60 * SECOND + SECOND - 1));
    assert!(e.is_expired(60, 61 * SECOND));
    // a clock that went backwards expires the entry
    assert!(e.is_expired(60, -SECOND));
    assert!(!e.is_expired(60, -SECOND + 1));
}

#[test]
fn reading_counts_and_stamps() {
    let mut e = CacheEntry::new("v".to_string(), 5);
    assert_eq!(e.access(9), "v");
    assert_eq!((e.access_count, e.last_accessed, e.created_at), (2, 9, 5));
}

#[test]
fn a_full_cache_evicts_the_least_recently_used() {
    let mut c = cache(2, EvictionPolicy::LRU);
    c.insert(1, "a".to_string(), 10);
    c.insert(2, "b".to_string(), 20);
    assert_eq!(c.check(1, 30), Some("a".to_string()));
    c.insert(3, "c".to_string(), 40);
    assert_eq!(c.len(), 2);
    assert_eq!(c.check(2, 50), None);
    assert_eq!(c.check(1, 50), Some("a".to_string()));
    assert_eq!(c.check(3, 50), Some("c".to_string()));
}

#[test]
fn least_frequently_used_goes_first() {
    let mut c = cache(2, EvictionPolicy::LFU);
    c.insert(1, "a".to_string(), 10);
    c.insert(2, "b".to_string(), 20);
    c.check(2, 21);
    assert_eq!(c.select_eviction_candidate(), Some(1));
    c.check(1, 22);
    // ties go to the entry stored first
    assert_eq!(c.select_eviction_candidate(), Some(1));
}

#[test]
fn oldest_first_evicts_by_storing_time() {
    let mut c = cache(10, EvictionPolicy::TTL);
    c.insert(5, "x".to_string(), 30);
    c.insert(6, "y".to_string(), 10);
    c.insert(7, "z".to_string(), 20);
    assert_eq!(c.select_eviction_candidate(), Some(6));
}

#[test]
fn enforcing_the_limit_keeps_the_most_recent() {
    let mut c = cache(10, EvictionPolicy::LRU);
    for (k, t) in [(1u64, 50i64), (2, 10), (3, 40), (4, 20), (5, 30)] {
        c.insert(k, k.to_string(), t);
    }
    let mut small = SelectionCache::new(CacheConfig { max_entries: 2, ttl_seconds: 60, eviction_policy: EvictionPolicy::LRU });
    for (k, t) in [(1u64, 50i64), (2, 10), (3, 40), (4, 20), (5, 30)] {
        small.insert(k, k.to_string(), t);
    }
    assert_eq!(small.len(), 2);
    c.enforce_size_limit();
    assert_eq!(c.len(), 5);
    assert_eq!(c.select_eviction_candidate(), Some(2));
}

#[test]
fn a_cache_without_room_keeps_only_the_newest_until_enforced() {
    let mut c = cache(0, EvictionPolicy::LRU);
    c.insert(1, "a".to_string(), 50);
    c.insert(2, "b".to_string(), 10);
    assert_eq!(c.len(), 1);
    assert_eq!(c.select_eviction_candidate(), Some(2));
    c.enforce_size_limit();
    assert_eq!(c.len(), 0);
    c.insert(3, "c".to_string(), 40);
    c.clear();
    assert_eq!(c.len(), 0);
    assert_eq!(c.select_eviction_candidate(), None);
}

#[test]
fn expired_entries_are_dropped() {
    let mut c = cache(10, EvictionPolicy::LRU);
    c.insert(1, "old".to_string(), 0);
    c.insert(2, "new".to_string(), 100 * SECOND);
    c.evict_expired(120 * SECOND);
    assert_eq!(c.len(), 1);
    assert_eq!(c.check(2, 120 * SECOND), Some("new".to_string()));
    assert_eq!(c.check(2, 200 * SECOND), None);
    assert_eq!(c.len(), 0);
}

#[test]
fn storing_an_existing_key_replaces_it_in_place() {
    let mut c = cache(10, EvictionPolicy::LRU);
    c.insert(1, "a".to_string(), 1);
    c.insert(2, "b".to_string(), 2);
    c.insert(1, "c".to_string(), 3);
    assert_eq!(c.len(), 2);
    assert_eq!(c.check(1, 4), Some("c".to_string()));
}
