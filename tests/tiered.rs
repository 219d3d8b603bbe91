use std::cell::RefCell;
use zeroclaw::entry::{MemoryCategory, MemoryEntry};
use zeroclaw::tiered::{
    CacheStats, CacheTier, RecallStep, TieredCacheConfig, TieredMemory, TieredMemoryBuilder,
};

/// A backend that keeps its records in a vector, overwriting by key, and
/// searches by substring of content or key, in insertion order.
#[derive(Default)]
struct VecBackend {
    rows: RefCell<Vec<MemoryEntry>>,
}

impl VecBackend {
    fn store(&self, key: &str, content: &str, category: MemoryCategory) {
        let mut rows = self.rows.borrow_mut();
        rows.retain(|e| e.key != key);
        let id = format!("row-{}", rows.len());
        rows.push(MemoryEntry {
            id,
            key: key.to_string(),
            content: content.to_string(),
            category,
            timestamp: "2024-01-01T00:00:00Z".to_string(),
            session_id: None,
            score: None,
        });
    }

    fn get(&self, key: &str) -> Option<MemoryEntry> {
        self.rows.borrow().iter().find(|e| e.key == key).cloned()
    }

    fn recall(&self, query: &str, limit: usize) -> Vec<MemoryEntry> {
        self.rows
            .borrow()
            .iter()
            .filter(|e| e.content.contains(query) || e.key.contains(query))
            .take(limit)
            .cloned()
            .collect()
    }

    fn forget(&self, key: &str) -> bool {
        let mut rows = self.rows.borrow_mut();
        let before = rows.len();
        rows.retain(|e| e.key != key);
        rows.len() != before
    }
}

fn store_through(mem: &mut TieredMemory<VecBackend>, key: &str, content: &str, category: MemoryCategory) {
    mem.backend().store(key, content, category.clone());
    mem.record_store(key, content, category);
}

fn get_through(mem: &mut TieredMemory<VecBackend>, key: &str) -> Option<MemoryEntry> {
    if let Some(e) = mem.lookup_hot(key, 2) {
        return Some(e);
    }
    let found = mem.backend().get(key);
    mem.settle_get(found, 40)
}

fn recall_through(mem: &mut TieredMemory<VecBackend>, query: &str, limit: usize) -> Vec<MemoryEntry> {
    match mem.begin_recall(query, limit, 3) {
        RecallStep::Done(v) => v,
        RecallStep::Backend { hot, remaining } => {
            let warm = mem.backend().recall(query, remaining);
            mem.finish_recall(hot, remaining, warm, 50)
        }
    }
}

fn forget_through(mem: &mut TieredMemory<VecBackend>, key: &str) -> bool {
    mem.forget_hot(key);
    mem.backend().forget(key)
}

fn create_test_memory() -> TieredMemory<VecBackend> {
    TieredMemory::with_defaults(VecBackend::default())
}

fn small_memory(capacity: usize) -> TieredMemory<VecBackend> {
    TieredMemoryBuilder::new(VecBackend::default())
        .hot_cache_size(capacity)
        .enable_promotion(true)
        .build()
}

#[test]
fn tiered_name() {
    let mem = create_test_memory();
    assert_eq!(mem.name(), "tiered");
}

#[test]
fn store_and_get() {
    let mut mem = create_test_memory();
    store_through(&mut mem, "key1", "content1", MemoryCategory::Core);
    let entry = get_through(&mut mem, "key1");
    assert!(entry.is_some());
    assert_eq!(entry.unwrap().content, "content1");
}

#[test]
fn hot_cache_hit() {
    let mut mem = create_test_memory();
    store_through(&mut mem, "key1", "content1", MemoryCategory::Core);
    // First access - from warm
    let _ = get_through(&mut mem, "key1");
    // Second access - from hot
    let _ = get_through(&mut mem, "key1");
    let stats = mem.stats();
    assert!(stats.hits >= 1);
}

#[test]
fn cache_miss() {
    let mut mem = create_test_memory();
    let entry = get_through(&mut mem, "nonexistent");
    assert!(entry.is_none());
    let stats = mem.stats();
    assert_eq!(stats.misses, 1);
}

#[test]
fn recall() {
    let mut mem = create_test_memory();
    store_through(&mut mem, "alpha", "rust is fast", MemoryCategory::Core);
    store_through(&mut mem, "beta", "python is easy", MemoryCategory::Core);
    let results = recall_through(&mut mem, "rust", 10);
    assert_eq!(results.len(), 1);
    assert_eq!(results[0].key, "alpha");
}

#[test]
fn forget() {
    let mut mem = create_test_memory();
    store_through(&mut mem, "temp", "temporary", MemoryCategory::Conversation);
    let removed = forget_through(&mut mem, "temp");
    assert!(removed);
    let entry = get_through(&mut mem, "temp");
    assert!(entry.is_none());
}

#[test]
fn store_then_get_is_a_hot_hit_with_stored_content() {
    let mut mem = create_test_memory();
    store_through(&mut mem, "k", "v", MemoryCategory::Daily);
    let e = mem.lookup_hot("k", 7).expect("hot hit");
    assert_eq!(e.content, "v");
    assert_eq!(e.key, "k");
    assert!(matches!(e.category, MemoryCategory::Daily));
    assert!(e.session_id.is_none());
    assert!(e.score.is_none());
    let s = mem.stats();
    assert_eq!((s.hits, s.hot_hits, s.warm_hits, s.misses), (1, 1, 0, 0));
    assert_eq!(s.operations, 2);
    assert_eq!(s.avg_hot_access_us, 7);
}

#[test]
fn stores_within_capacity_all_stay_hot() {
    let mut mem = small_memory(3);
    for k in ["a", "b", "c"] {
        store_through(&mut mem, k, "x", MemoryCategory::Core);
    }
    for k in ["a", "b", "c"] {
        assert!(mem.lookup_hot(k, 1).is_some(), "{k} should be hot");
    }
    let s = mem.stats();
    assert_eq!(s.hot_hits, 3);
    assert_eq!(s.warm_hits, 0);
    assert_eq!(s.evictions, 0);
    assert_eq!(s.hot_size, 3);
}

#[test]
fn overflow_evicts_first_stored_key() {
    let mut mem = small_memory(3);
    for k in ["a", "b", "c", "d"] {
        store_through(&mut mem, k, "x", MemoryCategory::Core);
    }
    assert!(mem.lookup_hot("a", 1).is_none());
    let e = get_through(&mut mem, "a").expect("backend still has it");
    assert_eq!(e.key, "a");
    let s = mem.stats();
    assert_eq!(s.warm_hits, 1);
    assert_eq!(s.hot_hits, 0);
    assert_eq!(s.evictions, 2);
    assert_eq!(s.hot_size, 3);
}

fn capacity_two_after_abc() -> TieredMemory<VecBackend> {
    let mut mem = TieredMemory::new(
        VecBackend::default(),
        TieredCacheConfig {
            hot_cache_size: 2,
            enable_promotion: true,
            enable_lru: true,
            ..TieredCacheConfig::default()
        },
    );
    store_through(&mut mem, "a", "1", MemoryCategory::Core);
    store_through(&mut mem, "b", "2", MemoryCategory::Core);
    store_through(&mut mem, "c", "3", MemoryCategory::Core);
    mem
}

#[test]
fn capacity_two_scenario() {
    // "a" was evicted when "c" was promoted: a warm-tier hit.
    let mut mem = capacity_two_after_abc();
    assert_eq!(get_through(&mut mem, "a").unwrap().content, "1");
    let s = mem.stats();
    assert_eq!((s.warm_hits, s.hot_hits), (1, 0));

    // "b" and "c" are hot-tier hits.
    let mut mem = capacity_two_after_abc();
    assert_eq!(get_through(&mut mem, "b").unwrap().content, "2");
    assert_eq!(get_through(&mut mem, "c").unwrap().content, "3");
    let s = mem.stats();
    assert_eq!((s.hot_hits, s.warm_hits), (2, 0));
    assert_eq!(s.evictions, 1);
}

#[test]
fn warm_read_promotion_evicts_oldest() {
    let mut mem = capacity_two_after_abc();
    let _ = get_through(&mut mem, "a");
    // Promoting "a" back evicted "b", the oldest of the two then held.
    assert!(mem.lookup_hot("c", 1).is_some());
    assert!(mem.lookup_hot("a", 1).is_some());
    assert!(mem.lookup_hot("b", 1).is_none());
    assert_eq!(mem.stats().evictions, 2);
}

#[test]
fn recall_finds_only_matching_record() {
    let mut mem = create_test_memory();
    store_through(&mut mem, "alpha", "rust is fast", MemoryCategory::Core);
    store_through(&mut mem, "beta", "python is easy", MemoryCategory::Core);
    let results = recall_through(&mut mem, "rust", 10);
    assert_eq!(results.len(), 1);
    assert_eq!(results[0].key, "alpha");
    assert_eq!(results[0].content, "rust is fast");
}

#[test]
fn recall_matches_key_as_well_as_content() {
    let mut mem = create_test_memory();
    store_through(&mut mem, "rusty", "nothing here", MemoryCategory::Core);
    let results = recall_through(&mut mem, "rust", 10);
    assert_eq!(results.len(), 1);
    assert_eq!(results[0].key, "rusty");
}

#[test]
fn recall_is_case_sensitive() {
    let mut mem = create_test_memory();
    store_through(&mut mem, "alpha", "Rust is fast", MemoryCategory::Core);
    assert!(recall_through(&mut mem, "rust", 10).is_empty());
}

#[test]
fn recall_never_exceeds_limit() {
    let mut mem = create_test_memory();
    for k in ["r1", "r2", "r3", "r4"] {
        store_through(&mut mem, k, "rust", MemoryCategory::Core);
    }
    assert_eq!(recall_through(&mut mem, "rust", 2).len(), 2);
    assert_eq!(recall_through(&mut mem, "rust", 0).len(), 0);
    assert_eq!(recall_through(&mut mem, "rust", 10).len(), 4);
}

#[test]
fn recall_with_no_match_is_empty() {
    let mut mem = create_test_memory();
    store_through(&mut mem, "alpha", "rust is fast", MemoryCategory::Core);
    assert!(recall_through(&mut mem, "haskell", 5).is_empty());
}

#[test]
fn recall_full_from_hot_does_not_ask_backend() {
    let mut mem = create_test_memory();
    store_through(&mut mem, "alpha", "rust is fast", MemoryCategory::Core);
    match mem.begin_recall("rust", 1, 4) {
        RecallStep::Done(v) => assert_eq!(v.len(), 1),
        RecallStep::Backend { .. } => panic!("the hot tier should have answered"),
    }
    let s = mem.stats();
    assert_eq!((s.hits, s.hot_hits), (1, 1));
}

#[test]
fn recall_fills_from_backend_and_promotes() {
    let mut mem = TieredMemoryBuilder::new(VecBackend::default())
        .enable_promotion(false)
        .build();
    store_through(&mut mem, "a", "rust one", MemoryCategory::Core);
    store_through(&mut mem, "b", "rust two", MemoryCategory::Core);
    assert_eq!(mem.stats().hot_size, 0);
    let results = recall_through(&mut mem, "rust", 5);
    assert_eq!(results.len(), 2);
    let s = mem.stats();
    assert_eq!((s.hot_hits, s.warm_hits), (0, 1));
    assert_eq!(s.avg_warm_access_us, 50);
    // Promotion is off: nothing entered the hot tier.
    assert_eq!(s.hot_size, 0);
}

#[test]
fn finish_recall_keeps_no_more_than_remaining() {
    let mut mem = create_test_memory();
    let warm: Vec<MemoryEntry> = ["x", "y", "z"]
        .iter()
        .map(|k| MemoryEntry {
            id: k.to_string(),
            key: k.to_string(),
            content: "c".to_string(),
            category: MemoryCategory::Custom("notes".to_string()),
            timestamp: String::new(),
            session_id: None,
            score: None,
        })
        .collect();
    let r = mem.finish_recall(Vec::new(), 2, warm, 9);
    assert_eq!(r.len(), 2);
    assert_eq!(r[0].key, "x");
    assert_eq!(r[1].key, "y");
    assert!(mem.lookup_hot("x", 1).is_some());
    assert!(mem.lookup_hot("z", 1).is_none());
}

#[test]
fn forget_removes_from_hot_tier() {
    let mut mem = create_test_memory();
    store_through(&mut mem, "temp", "temporary", MemoryCategory::Conversation);
    assert_eq!(mem.stats().hot_size, 1);
    mem.forget_hot("temp");
    assert_eq!(mem.stats().hot_size, 0);
    assert!(mem.lookup_hot("temp", 1).is_none());
    assert!(!forget_through(&mut mem, "never-stored"));
}

#[test]
fn hit_and_miss_counts_are_exact() {
    let mut mem = create_test_memory();
    store_through(&mut mem, "a", "1", MemoryCategory::Core);
    let _ = get_through(&mut mem, "a");
    let _ = get_through(&mut mem, "a");
    let _ = get_through(&mut mem, "zz");
    let s = mem.stats();
    assert_eq!(s.hits, 2);
    assert_eq!(s.misses, 1);
    assert_eq!(s.operations, 4);
}

#[test]
fn fresh_stats_are_zero() {
    let mem = create_test_memory();
    let s = mem.stats();
    assert_eq!(s, CacheStats::default());
    assert_eq!(s.hits + s.misses, 0);
}

#[test]
fn reset_stats_zeroes_counters_and_keeps_hot_tier() {
    let mut mem = create_test_memory();
    store_through(&mut mem, "a", "1", MemoryCategory::Core);
    let _ = get_through(&mut mem, "a");
    mem.reset_stats();
    let s = mem.stats();
    assert_eq!(s.hits, 0);
    assert_eq!(s.operations, 0);
    assert_eq!(s.hot_size, 1);
}

#[test]
fn zero_capacity_holds_nothing() {
    let mut mem = small_memory(0);
    store_through(&mut mem, "a", "1", MemoryCategory::Core);
    assert_eq!(mem.stats().hot_size, 0);
    assert_eq!(get_through(&mut mem, "a").unwrap().content, "1");
    assert_eq!(mem.stats().warm_hits, 1);
}

#[test]
fn restoring_a_held_key_replaces_it_without_eviction() {
    let mut mem = small_memory(2);
    store_through(&mut mem, "a", "1", MemoryCategory::Core);
    store_through(&mut mem, "b", "2", MemoryCategory::Core);
    store_through(&mut mem, "a", "3", MemoryCategory::Core);
    assert_eq!(mem.stats().evictions, 0);
    assert_eq!(mem.lookup_hot("a", 1).unwrap().content, "3");
    // "b" is now the oldest promotion and goes first.
    store_through(&mut mem, "c", "4", MemoryCategory::Core);
    assert!(mem.lookup_hot("b", 1).is_none());
    assert!(mem.lookup_hot("a", 1).is_some());
}

#[test]
fn default_config_values() {
    let c = TieredCacheConfig::default();
    assert_eq!(c.hot_cache_size, 10_000);
    assert_eq!(c.warm_cache_size, 100_000);
    assert_eq!(c.hot_ttl, std::time::Duration::from_secs(300));
    assert_eq!(c.warm_ttl, std::time::Duration::from_secs(3600));
    assert!(c.enable_promotion);
    assert_eq!(c.promotion_threshold, 5);
    assert!(c.enable_lru);
}

#[test]
fn builder_sets_fields() {
    let mem = TieredMemoryBuilder::new(VecBackend::default())
        .hot_cache_size(7)
        .hot_ttl(std::time::Duration::from_secs(9))
        .enable_promotion(false)
        .build();
    let c = mem.config();
    assert_eq!(c.hot_cache_size, 7);
    assert_eq!(c.hot_ttl, std::time::Duration::from_secs(9));
    assert!(!c.enable_promotion);
    assert_eq!(c.warm_cache_size, 100_000);
}

#[test]
fn tier_labels() {
    assert_eq!(CacheTier::Hot.label(), "hot");
    assert_eq!(CacheTier::Warm.label(), "warm");
    assert_eq!(CacheTier::Cold.label(), "cold");
}

#[test]
fn category_labels() {
    assert_eq!(MemoryCategory::Core.label(), "core");
    assert_eq!(MemoryCategory::Daily.label(), "daily");
    assert_eq!(MemoryCategory::Conversation.label(), "conversation");
    assert_eq!(MemoryCategory::Custom("proj".into()).label(), "proj");
}

#[test]
fn materialized_entries_get_distinct_ids() {
    let a = MemoryEntry::materialize("k", "v", MemoryCategory::Core);
    let b = MemoryEntry::materialize("k", "v", MemoryCategory::Core);
    assert_ne!(a.id, b.id);
    assert!(!a.timestamp.is_empty());
    assert_eq!(a.key, "k");
}

#[test]
fn average_access_time_divides_total_by_hits() {
    let mut mem = create_test_memory();
    store_through(&mut mem, "a", "1", MemoryCategory::Core);
    let _ = mem.lookup_hot("a", 10);
    let _ = mem.lookup_hot("a", 20);
    assert_eq!(mem.stats().avg_hot_access_us, 15);
}

#[test]
fn recall_skips_backend_records_already_hot() {
    let mut mem = small_memory(1);
    store_through(&mut mem, "a", "rust a", MemoryCategory::Core);
    store_through(&mut mem, "b", "rust b", MemoryCategory::Core);
    // Only "b" is hot; the backend returns "a" and "b", and "b" is not repeated.
    let results = recall_through(&mut mem, "rust", 5);
    let keys: Vec<&str> = results.iter().map(|e| e.key.as_str()).collect();
    assert_eq!(keys, vec!["b", "a"]);
    let s = mem.stats();
    assert_eq!((s.hot_hits, s.warm_hits), (1, 1));
}
