//! The tiered cache engine: a bounded hot tier in front of a backend.
//!
//! The engine decides; whoever owns it performs the backend calls. Each
//! storage operation is a short sequence of steps on [`TieredMemory`]: look
//! in the hot tier, and, where the hot tier cannot answer, settle the
//! operation with what the backend returned.

use vstd::prelude::*;
use std::collections::VecDeque;
use std::sync::Arc;
use std::time::Duration;
use crate::entry::{EntryView, MemoryCategory, MemoryEntry};
use crate::hot_index::{
    HotMap, HotSlot, hot_contents, hot_get, hot_insert, hot_len, hot_new, hot_remove, hot_snapshot,
};
use crate::util::{contains_text, is_substring};
use crate::tier_model::{TierModel, lemma_forget_wf, lemma_index_of_unique, lemma_promote_wf};

verus! {

/// The tier that answered a lookup.
#[derive(Debug, Clone, Copy, PartialEq, Eq, Structural)]
pub enum CacheTier {
    Hot,
    Warm,
    Cold,
}

pub open spec fn tier_label(t: CacheTier) -> Seq<char> {
    match t {
        CacheTier::Hot => "hot"@,
        CacheTier::Warm => "warm"@,
        CacheTier::Cold => "cold"@,
    }
}

impl CacheTier {
    /// The lower-case name of the tier.
    pub fn label(&self) -> (r: &'static str)
        ensures
            r@ == tier_label(*self),
    {
        match self {
            CacheTier::Hot => "hot",
            CacheTier::Warm => "warm",
            CacheTier::Cold => "cold",
        }
    }
}

/// Point-in-time statistics of the engine.
#[derive(Debug, Clone, Copy, PartialEq, Eq, Structural)]
pub struct CacheStats {
    pub hits: u64,
    pub misses: u64,
    pub hot_hits: u64,
    pub warm_hits: u64,
    pub cold_hits: u64,
    pub evictions: u64,
    pub hot_size: usize,
    pub warm_size: usize,
    pub operations: u64,
    pub avg_hot_access_us: u64,
    pub avg_warm_access_us: u64,
}

/// `x + 1`, held at `u64::MAX`.
pub open spec fn sat_inc(x: u64) -> u64 {
    if x < u64::MAX {
        (x + 1) as u64
    } else {
        x
    }
}

/// `x + y`, held at `u64::MAX`.
pub open spec fn sat_add(x: u64, y: u64) -> u64 {
    if x + y > u64::MAX {
        u64::MAX
    } else {
        (x + y) as u64
    }
}

/// `total / count`, or 0 when nothing was counted.
pub open spec fn average(total: u64, count: u64) -> u64 {
    if count == 0 {
        0
    } else {
        (total / count) as u64
    }
}

pub open spec fn zero_stats() -> CacheStats {
    CacheStats {
        hits: 0,
        misses: 0,
        hot_hits: 0,
        warm_hits: 0,
        cold_hits: 0,
        evictions: 0,
        hot_size: 0,
        warm_size: 0,
        operations: 0,
        avg_hot_access_us: 0,
        avg_warm_access_us: 0,
    }
}

/// The counters after one hit answered by `tier`.
pub open spec fn after_hit(s: CacheStats, tier: CacheTier) -> CacheStats {
    CacheStats {
        hits: sat_inc(s.hits),
        operations: sat_inc(s.operations),
        hot_hits: if tier == CacheTier::Hot { sat_inc(s.hot_hits) } else { s.hot_hits },
        warm_hits: if tier == CacheTier::Warm { sat_inc(s.warm_hits) } else { s.warm_hits },
        cold_hits: if tier == CacheTier::Cold { sat_inc(s.cold_hits) } else { s.cold_hits },
        ..s
    }
}

/// The counters after one lookup that no tier could answer.
pub open spec fn after_miss(s: CacheStats) -> CacheStats {
    CacheStats { misses: sat_inc(s.misses), operations: sat_inc(s.operations), ..s }
}

/// The counters after one write.
pub open spec fn after_write(s: CacheStats) -> CacheStats {
    CacheStats { operations: sat_inc(s.operations), ..s }
}

/// The counters after one eviction from the hot tier.
pub open spec fn after_eviction(s: CacheStats) -> CacheStats {
    CacheStats { evictions: sat_inc(s.evictions), ..s }
}

impl Default for CacheStats {
    fn default() -> (r: Self)
        ensures
            r == zero_stats(),
    {
        CacheStats {
            hits: 0,
            misses: 0,
            hot_hits: 0,
            warm_hits: 0,
            cold_hits: 0,
            evictions: 0,
            hot_size: 0,
            warm_size: 0,
            operations: 0,
            avg_hot_access_us: 0,
            avg_warm_access_us: 0,
        }
    }
}

pub assume_specification[ core::time::Duration::from_secs ](secs: u64) -> Duration;

/// Configuration of the engine, fixed when it is built.
///
/// The time-to-live fields, `warm_cache_size` and `promotion_threshold` are
/// carried for the backend and for callers; the engine does not act on them.
#[derive(Debug, Clone, Copy)]
pub struct TieredCacheConfig {
    pub hot_cache_size: usize,
    pub warm_cache_size: usize,
    pub hot_ttl: Duration,
    pub warm_ttl: Duration,
    pub enable_promotion: bool,
    pub promotion_threshold: u64,
    pub enable_lru: bool,
}

impl Default for TieredCacheConfig {
    fn default() -> (r: Self)
        ensures
            r.hot_cache_size == 10_000,
            r.warm_cache_size == 100_000,
            r.enable_promotion,
            r.promotion_threshold == 5,
            r.enable_lru,
    {
        TieredCacheConfig {
            hot_cache_size: 10_000,
            warm_cache_size: 100_000,
            hot_ttl: Duration::from_secs(300),
            warm_ttl: Duration::from_secs(3600),
            enable_promotion: true,
            promotion_threshold: 5,
            enable_lru: true,
        }
    }
}

/// The views of a sequence of records.
pub open spec fn entries_view(v: Seq<MemoryEntry>) -> Seq<EntryView> {
    v.map_values(|e: MemoryEntry| e@)
}

/// The view of an optional record.
pub open spec fn opt_entry_view(o: Option<MemoryEntry>) -> Option<EntryView> {
    match o {
        Some(e) => Some(e@),
        None => None,
    }
}

/// A record answers `query` when its content or its key contains it.
pub open spec fn matches_query(e: EntryView, query: Seq<char>) -> bool {
    is_substring(query, e.content) || is_substring(query, e.key)
}

/// `v` is what the hot tier `m` answers to `query` with room for `limit`
/// records: at most `limit` matching records that it holds, each once, and,
/// where fewer than `limit` came back, every matching record that it holds.
pub open spec fn hot_answer(m: TierModel, query: Seq<char>, limit: nat, v: Seq<EntryView>) -> bool {
    &&& v.len() <= limit
    &&& forall|i: int|
        0 <= i < v.len() ==> m.hot.contains_key(#[trigger] v[i].key) && m.hot[v[i].key].0 == v[i]
            && matches_query(v[i], query)
    &&& forall|i: int, j: int| 0 <= i < j < v.len() ==> v[i].key != v[j].key
    &&& v.len() < limit ==> forall|k: Seq<char>|
        #[trigger] m.hot.contains_key(k) && matches_query(m.hot[k].0, query) ==> exists|i: int|
            0 <= i < v.len() && v[i].key == k
}

/// The counters after promoting `e` into `m`: one more eviction where the
/// promotion evicts.
pub open spec fn counters_after_promote(s: CacheStats, m: TierModel, e: EntryView, cap: nat) -> CacheStats {
    if m.evicts(e, cap) {
        after_eviction(s)
    } else {
        s
    }
}

/// The counters after promoting each of `es` in turn into `m`.
pub open spec fn counters_after_promote_all(
    s: CacheStats,
    m: TierModel,
    es: Seq<EntryView>,
    cap: nat,
) -> CacheStats
    decreases es.len(),
{
    if es.len() == 0 {
        s
    } else {
        counters_after_promote(
            counters_after_promote_all(s, m, es.drop_last(), cap),
            m.promote_all(es.drop_last(), cap),
            es.last(),
            cap,
        )
    }
}

/// What a recall asks of the backend after the hot tier has answered.
pub enum RecallStep {
    /// The hot tier filled the limit; these are the results.
    Done(Vec<MemoryEntry>),
    /// The backend is to be asked for up to `remaining` more records, which
    /// follow `hot`.
    Backend { hot: Vec<MemoryEntry>, remaining: usize },
}

/// The tiered cache engine over a backend of type `M`.
///
/// The engine owns the hot tier: a map from key to record, the recency
/// order used to pick an eviction victim, per-key hit counts, and the
/// aggregate statistics. The backend stays authoritative; the engine holds a
/// shared handle to it for whoever performs the backend calls.
///
/// Recency is promotion order: a hot hit counts towards the key's hit count
/// but does not move the key in the recency order, so the eviction victim is
/// always the least recently promoted key.
pub struct TieredMemory<M> {
    hot_cache: HotMap,
    lru_queue: VecDeque<String>,
    backend: Arc<M>,
    config: TieredCacheConfig,
    stats: CacheStats,
    hot_access_time_us: u64,
    warm_access_time_us: u64,
}

impl<M> TieredMemory<M> {
    /// The hot tier as a mathematical value.
    pub closed spec fn model(&self) -> TierModel {
        TierModel { hot: hot_contents(self.hot_cache), lru: self.lru_queue@.map_values(|k: String| k@) }
    }

    /// The counters of hits, misses, evictions and operations.
    pub closed spec fn counters(&self) -> CacheStats {
        self.stats
    }

    /// Total microseconds spent on hot-tier hits.
    pub closed spec fn hot_time(&self) -> u64 {
        self.hot_access_time_us
    }

    /// Total microseconds spent on warm-tier hits.
    pub closed spec fn warm_time(&self) -> u64 {
        self.warm_access_time_us
    }

    pub closed spec fn spec_config(&self) -> TieredCacheConfig {
        self.config
    }

    pub closed spec fn spec_backend(&self) -> M {
        *self.backend
    }

    /// The hot tier's capacity in records.
    pub open spec fn capacity(&self) -> nat {
        self.spec_config().hot_cache_size as nat
    }

    /// Whether records read from or written to the backend enter the hot tier.
    pub open spec fn promoting(&self) -> bool {
        self.spec_config().enable_promotion
    }

    pub open spec fn wf(&self) -> bool {
        self.model().wf(self.capacity())
    }

    /// What every step keeps: the configuration and the backend.
    pub open spec fn same_setup(&self, other: &Self) -> bool {
        &&& self.spec_config() == other.spec_config()
        &&& self.spec_backend() == other.spec_backend()
    }

    /// An engine with an empty hot tier and zeroed statistics.
    pub fn new(backend: M, config: TieredCacheConfig) -> (r: Self)
        ensures
            r.wf(),
            r.model() == TierModel::empty(),
            r.counters() == zero_stats(),
            r.hot_time() == 0,
            r.warm_time() == 0,
            r.spec_config() == config,
            r.spec_backend() == backend,
    {
        let hot_cache = hot_new();
        let r = TieredMemory {
            hot_cache,
            lru_queue: VecDeque::new(),
            backend: Arc::new(backend),
            config,
            stats: CacheStats::default(),
            hot_access_time_us: 0,
            warm_access_time_us: 0,
        };
        assert(r.model().hot =~= Map::empty());
        assert(r.model().lru =~= Seq::empty());
        r
    }

    /// An engine with the default configuration.
    pub fn with_defaults(backend: M) -> (r: Self)
        ensures
            r.wf(),
            r.model() == TierModel::empty(),
            r.counters() == zero_stats(),
            r.capacity() == 10_000,
            r.promoting(),
            r.spec_backend() == backend,
    {
        Self::new(backend, TieredCacheConfig::default())
    }

    /// The name under which the engine presents itself as a store.
    pub fn name(&self) -> (r: &'static str)
        ensures
            r@ == "tiered"@,
    {
        "tiered"
    }

    /// A snapshot of the statistics: the counters, the number of records in
    /// the hot tier, and the average time of a hit on each tier.
    pub fn stats(&self) -> (r: CacheStats)
        ensures
            r == (CacheStats {
                hot_size: self.model().hot.len() as usize,
                avg_hot_access_us: average(self.hot_time(), self.counters().hot_hits),
                avg_warm_access_us: average(self.warm_time(), self.counters().warm_hits),
                ..self.counters()
            }),
    {
        let mut r = self.stats;
        r.hot_size = hot_len(&self.hot_cache);
        r.avg_hot_access_us = if self.stats.hot_hits == 0 {
            0
        } else {
            self.hot_access_time_us / self.stats.hot_hits
        };
        r.avg_warm_access_us = if self.stats.warm_hits == 0 {
            0
        } else {
            self.warm_access_time_us / self.stats.warm_hits
        };
        r
    }

    /// Zero the statistics; the hot tier is kept.
    pub fn reset_stats(&mut self)
        ensures
            final(self).counters() == zero_stats(),
            final(self).hot_time() == 0,
            final(self).warm_time() == 0,
            final(self).model() == old(self).model(),
            final(self).same_setup(old(self)),
    {
        self.stats = CacheStats::default();
        self.hot_access_time_us = 0;
        self.warm_access_time_us = 0;
    }

    /// The configuration the engine was built with.
    pub fn config(&self) -> (r: &TieredCacheConfig)
        ensures
            *r == self.spec_config(),
    {
        &self.config
    }

    /// The backend.
    pub fn backend(&self) -> (r: &M)
        ensures
            *r == self.spec_backend(),
    {
        &*self.backend
    }

    /// A shared handle to the backend, for performing backend calls without
    /// holding the engine.
    pub fn shared_backend(&self) -> (r: Arc<M>)
        ensures
            *r == self.spec_backend(),
    {
        self.backend.clone()
    }
}

impl<M> TieredMemory<M> {
    /// Count a hit answered by `tier`, which took `access_us` microseconds.
    fn record_hit(&mut self, tier: CacheTier, access_us: u64)
        ensures
            final(self).counters() == after_hit(old(self).counters(), tier),
            final(self).hot_time() == if tier == CacheTier::Hot {
                sat_add(old(self).hot_time(), access_us)
            } else {
                old(self).hot_time()
            },
            final(self).warm_time() == if tier == CacheTier::Warm {
                sat_add(old(self).warm_time(), access_us)
            } else {
                old(self).warm_time()
            },
            final(self).model() == old(self).model(),
            final(self).same_setup(old(self)),
    {
        self.stats.hits = self.stats.hits.saturating_add(1);
        self.stats.operations = self.stats.operations.saturating_add(1);
        match tier {
            CacheTier::Hot => {
                self.stats.hot_hits = self.stats.hot_hits.saturating_add(1);
                self.hot_access_time_us = self.hot_access_time_us.saturating_add(access_us);
            },
            CacheTier::Warm => {
                self.stats.warm_hits = self.stats.warm_hits.saturating_add(1);
                self.warm_access_time_us = self.warm_access_time_us.saturating_add(access_us);
            },
            CacheTier::Cold => {
                self.stats.cold_hits = self.stats.cold_hits.saturating_add(1);
            },
        }
    }

    /// Count a lookup that no tier could answer.
    fn record_miss(&mut self)
        ensures
            final(self).counters() == after_miss(old(self).counters()),
            final(self).hot_time() == old(self).hot_time(),
            final(self).warm_time() == old(self).warm_time(),
            final(self).model() == old(self).model(),
            final(self).same_setup(old(self)),
    {
        self.stats.misses = self.stats.misses.saturating_add(1);
        self.stats.operations = self.stats.operations.saturating_add(1);
    }

    /// The position of `key` in the recency order, if it is there.
    fn lru_position(&self, key: &String) -> (r: Option<usize>)
        ensures
            match r {
                Some(i) => i < self.model().lru.len() && self.model().lru[i as int] == key@,
                None => !self.model().lru.contains(key@),
            },
    {
        let n = self.lru_queue.len();
        let mut i: usize = 0;
        while i < n
            invariant
                n == self.lru_queue@.len(),
                i <= n,
                forall|j: int| 0 <= j < i ==> self.model().lru[j] != key@,
            decreases n - i,
        {
            if self.lru_queue[i] == *key {
                return Some(i);
            }
            i = i + 1;
        }
        proof {
            if self.model().lru.contains(key@) {
                let j = choose|j: int| 0 <= j < self.model().lru.len() && self.model().lru[j] == key@;
                assert(self.model().lru[j] != key@);
            }
        }
        None
    }

    /// Removing a key from the queue removes its characters from the recency order.
    proof fn lemma_lru_remove(old_q: Seq<String>, new_q: Seq<String>, pos: int)
        requires
            0 <= pos < old_q.len(),
            new_q == old_q.remove(pos),
        ensures
            new_q.map_values(|k: String| k@) == old_q.map_values(|k: String| k@).remove(pos),
    {
        assert(new_q.map_values(|k: String| k@) =~= old_q.map_values(|k: String| k@).remove(pos));
    }

    /// Insert `entry` into the hot tier, evicting the least recently promoted
    /// record when the tier is full.
    fn promote_to_hot(&mut self, entry: MemoryEntry)
        requires
            old(self).wf(),
        ensures
            final(self).wf(),
            final(self).model() == old(self).model().promote(entry@, old(self).capacity()),
            final(self).counters() == counters_after_promote(
                old(self).counters(),
                old(self).model(),
                entry@,
                old(self).capacity(),
            ),
            final(self).hot_time() == old(self).hot_time(),
            final(self).warm_time() == old(self).warm_time(),
            final(self).same_setup(old(self)),
    {
        proof {
            lemma_promote_wf(self.model(), entry@, self.capacity());
        }
        let ghost m0 = self.model();
        let ghost e = entry@;
        let cap = self.config.hot_cache_size;
        if cap == 0 {
            return;
        }
        let key = entry.key.clone();
        match hot_get(&self.hot_cache, key.as_str()) {
            Some(slot) => {
                assert(m0.lru.contains(key@));
                let pos = self.lru_position(&key);
                let pos = match pos {
                    Some(p) => p,
                    None => {
                        return;
                    },
                };
                proof {
                    lemma_index_of_unique(m0.lru, pos as int);
                }
                let ghost q0 = self.lru_queue@;
                self.lru_queue.remove(pos);
                proof {
                    Self::lemma_lru_remove(q0, self.lru_queue@, pos as int);
                }
                hot_insert(
                    &mut self.hot_cache,
                    key.clone(),
                    HotSlot { entry, access_count: slot.access_count },
                );
                self.lru_queue.push_front(key);
                assert(self.model().lru =~= seq![e.key] + m0.lru.remove(pos as int));
                assert(self.model().hot =~= m0.hot.insert(e.key, (e, m0.hot[e.key].1)));
            },
            None => {
                if self.lru_queue.len() >= cap {
                    let ghost q0 = self.lru_queue@;
                    let victim = self.lru_queue.pop_back();
                    match victim {
                        Some(v) => {
                            assert(self.lru_queue@ =~= q0.remove(q0.len() - 1));
                            proof {
                                Self::lemma_lru_remove(q0, self.lru_queue@, q0.len() - 1);
                            }
                            assert(v@ == m0.lru.last());
                            hot_remove(&mut self.hot_cache, v.as_str());
                        },
                        None => {},
                    }
                    self.stats.evictions = self.stats.evictions.saturating_add(1);
                    assert(self.model().lru =~= m0.lru.drop_last());
                }
                hot_insert(&mut self.hot_cache, key.clone(), HotSlot { entry, access_count: 0 });
                self.lru_queue.push_front(key);
                assert(self.model().lru =~= seq![e.key] + (if m0.lru.len() >= cap {
                    m0.lru.drop_last()
                } else {
                    m0.lru
                }));
                assert(self.model().hot =~= (if m0.lru.len() >= cap {
                    m0.hot.remove(m0.lru.last())
                } else {
                    m0.hot
                }).insert(e.key, (e, 0)));
            },
        }
    }
}

impl<M> TieredMemory<M> {
    /// A copy of the record that the hot tier holds under `key`.
    fn get_from_hot(&self, key: &str) -> (r: Option<MemoryEntry>)
        ensures
            opt_entry_view(r) == self.model().lookup(key@),
    {
        match hot_get(&self.hot_cache, key) {
            Some(slot) => Some(slot.entry),
            None => None,
        }
    }

    /// First step of a lookup by key: answer from the hot tier.
    ///
    /// On a hit the record comes back, a hot hit that took `access_us`
    /// microseconds is counted and the key's hit count goes up. On a miss
    /// nothing changes and the backend is to be asked; see
    /// [`TieredMemory::settle_get`].
    pub fn lookup_hot(&mut self, key: &str, access_us: u64) -> (r: Option<MemoryEntry>)
        requires
            old(self).wf(),
        ensures
            final(self).wf(),
            opt_entry_view(r) == old(self).model().lookup(key@),
            final(self).model() == old(self).model().touch(key@),
            final(self).counters() == if r is Some {
                after_hit(old(self).counters(), CacheTier::Hot)
            } else {
                old(self).counters()
            },
            final(self).hot_time() == if r is Some {
                sat_add(old(self).hot_time(), access_us)
            } else {
                old(self).hot_time()
            },
            final(self).warm_time() == old(self).warm_time(),
            final(self).same_setup(old(self)),
    {
        let ghost m0 = self.model();
        match hot_get(&self.hot_cache, key) {
            Some(slot) => {
                self.record_hit(CacheTier::Hot, access_us);
                let found = slot.entry.clone();
                hot_insert(
                    &mut self.hot_cache,
                    String::from_str(key),
                    HotSlot { entry: slot.entry, access_count: slot.access_count.saturating_add(1) },
                );
                assert(self.model().hot =~= m0.touch(key@).hot);
                assert forall|k: Seq<char>| #[trigger] self.model().hot.contains_key(k)
                    implies self.model().hot[k].0.key == k by {
                    assert(m0.hot.contains_key(k));
                }
                Some(found)
            },
            None => None,
        }
    }

    /// Second step of a lookup by key, after the backend answered `found`
    /// in `warm_us` microseconds.
    ///
    /// A record the backend found is counted as a warm hit and, where
    /// promotion is enabled, enters the hot tier; nothing found is counted as
    /// a miss. The backend's answer is returned as it came.
    pub fn settle_get(&mut self, found: Option<MemoryEntry>, warm_us: u64) -> (r: Option<MemoryEntry>)
        requires
            old(self).wf(),
        ensures
            final(self).wf(),
            opt_entry_view(r) == opt_entry_view(found),
            final(self).model() == match found {
                Some(e) => if old(self).promoting() {
                    old(self).model().promote(e@, old(self).capacity())
                } else {
                    old(self).model()
                },
                None => old(self).model(),
            },
            final(self).counters() == match found {
                Some(e) => after_hit(
                    if old(self).promoting() {
                        counters_after_promote(
                            old(self).counters(),
                            old(self).model(),
                            e@,
                            old(self).capacity(),
                        )
                    } else {
                        old(self).counters()
                    },
                    CacheTier::Warm,
                ),
                None => after_miss(old(self).counters()),
            },
            final(self).hot_time() == old(self).hot_time(),
            final(self).warm_time() == if found is Some {
                sat_add(old(self).warm_time(), warm_us)
            } else {
                old(self).warm_time()
            },
            final(self).same_setup(old(self)),
    {
        match found {
            Some(e) => {
                if self.config.enable_promotion {
                    self.promote_to_hot(e.clone());
                }
                self.record_hit(CacheTier::Warm, warm_us);
                Some(e)
            },
            None => {
                self.record_miss();
                None
            },
        }
    }

    /// The write step, after the backend stored `content` under `key`.
    ///
    /// A fresh record (new identifier, current time) is materialized and
    /// returned; where promotion is enabled it enters the hot tier. The
    /// write is counted as an operation, neither hit nor miss.
    pub fn record_store(&mut self, key: &str, content: &str, category: MemoryCategory) -> (r: MemoryEntry)
        requires
            old(self).wf(),
        ensures
            final(self).wf(),
            r.key@ == key@,
            r.content@ == content@,
            r.category@ == category@,
            r.session_id is None,
            r.score is None,
            final(self).model() == if old(self).promoting() {
                old(self).model().promote(r@, old(self).capacity())
            } else {
                old(self).model()
            },
            final(self).counters() == after_write(
                if old(self).promoting() {
                    counters_after_promote(
                        old(self).counters(),
                        old(self).model(),
                        r@,
                        old(self).capacity(),
                    )
                } else {
                    old(self).counters()
                },
            ),
            final(self).hot_time() == old(self).hot_time(),
            final(self).warm_time() == old(self).warm_time(),
            final(self).same_setup(old(self)),
    {
        let entry = MemoryEntry::materialize(key, content, category);
        if self.config.enable_promotion {
            self.promote_to_hot(entry.clone());
        }
        self.stats.operations = self.stats.operations.saturating_add(1);
        entry
    }

    /// The hot-tier part of deleting `key`: the record and its hit count
    /// leave the hot tier. The backend's deletion result is what the caller
    /// reports.
    pub fn forget_hot(&mut self, key: &str)
        requires
            old(self).wf(),
        ensures
            final(self).wf(),
            final(self).model() == old(self).model().forget(key@),
            final(self).counters() == old(self).counters(),
            final(self).hot_time() == old(self).hot_time(),
            final(self).warm_time() == old(self).warm_time(),
            final(self).same_setup(old(self)),
    {
        proof {
            lemma_forget_wf(self.model(), key@, self.capacity());
        }
        let ghost m0 = self.model();
        hot_remove(&mut self.hot_cache, key);
        let owned = String::from_str(key);
        match self.lru_position(&owned) {
            Some(pos) => {
                proof {
                    lemma_index_of_unique(m0.lru, pos as int);
                }
                let ghost q0 = self.lru_queue@;
                self.lru_queue.remove(pos);
                proof {
                    Self::lemma_lru_remove(q0, self.lru_queue@, pos as int);
                }
                assert(m0.lru[pos as int] == key@);
                assert(m0.lru.contains(key@));
                assert(m0.hot.contains_key(key@));
                assert(self.model().lru =~= m0.forget(key@).lru);
                assert(self.model().hot =~= m0.forget(key@).hot);
            },
            None => {
                assert(!m0.hot.contains_key(key@));
                assert(self.model().hot =~= m0.hot);
            },
        }
    }
}

impl<M> TieredMemory<M> {
    /// The hot tier's answer to a search for `query`: up to `limit` records
    /// whose content or key contains it, in no promised order.
    pub fn recall_hot(&self, query: &str, limit: usize) -> (r: Vec<MemoryEntry>)
        requires
            self.wf(),
        ensures
            hot_answer(self.model(), query@, limit as nat, entries_view(r@)),
    {
        let ghost m = self.model();
        let snap = hot_snapshot(&self.hot_cache);
        let n = snap.len();
        let mut out: Vec<MemoryEntry> = Vec::new();
        let mut i: usize = 0;
        while i < n && out.len() < limit
            invariant
                n == snap@.len(),
                i <= n,
                out@.len() <= limit,
                m == self.model(),
                m.wf(self.capacity()),
                forall|t: int|
                    0 <= t < snap@.len() ==> m.hot.contains_key(#[trigger] snap@[t].0@)
                        && m.hot[snap@[t].0@] == snap@[t].1@,
                forall|a: int, b: int| 0 <= a < b < snap@.len() ==> snap@[a].0@ != snap@[b].0@,
                forall|t: int|
                    0 <= t < out@.len() ==> exists|j: int|
                        0 <= j < i && #[trigger] out@[t]@ == snap@[j].1@.0,
                forall|t: int|
                    0 <= t < out@.len() ==> m.hot.contains_key(#[trigger] out@[t]@.key)
                        && m.hot[out@[t]@.key].0 == out@[t]@ && matches_query(out@[t]@, query@),
                forall|a: int, b: int| 0 <= a < b < out@.len() ==> out@[a]@.key != out@[b]@.key,
                forall|j: int|
                    0 <= j < i && matches_query(#[trigger] snap@[j].1@.0, query@) ==> exists|t: int|
                        0 <= t < out@.len() && out@[t]@.key == snap@[j].0@,
            decreases n - i,
        {
            let slot = &snap[i].1;
            assert(m.hot.contains_key(snap@[i as int].0@));
            assert(slot.entry@.key == snap@[i as int].0@);
            let hit = contains_text(slot.entry.content.as_str(), query) || contains_text(
                slot.entry.key.as_str(),
                query,
            );
            if hit {
                let ghost before = out@;
                out.push(slot.entry.clone());
                assert forall|t: int| 0 <= t < out@.len() implies exists|j: int|
                    0 <= j < i + 1 && #[trigger] out@[t]@ == snap@[j].1@.0 by {
                    if t < before.len() {
                        assert(out@[t] == before[t]);
                    } else {
                        assert(out@[t]@ == snap@[i as int].1@.0);
                    }
                }
                assert forall|a: int, b: int| 0 <= a < b < out@.len() implies out@[a]@.key
                    != out@[b]@.key by {
                    if b == before.len() {
                        let j = choose|j: int| 0 <= j < i && #[trigger] out@[a]@ == snap@[j].1@.0;
                        assert(m.hot.contains_key(snap@[j].0@));
                        assert(snap@[j].1@.0.key == snap@[j].0@);
                    }
                }
                assert forall|j: int|
                    0 <= j < i + 1 && matches_query(#[trigger] snap@[j].1@.0, query@) implies exists|t: int|
                    0 <= t < out@.len() && out@[t]@.key == snap@[j].0@ by {
                    if j < i {
                        let t = choose|t: int| 0 <= t < before.len() && before[t]@.key == snap@[j].0@;
                        assert(out@[t] == before[t]);
                    } else {
                        assert(out@[before.len() as int]@.key == snap@[j].0@);
                    }
                }
            }
            i = i + 1;
        }
        proof {
            let v = entries_view(out@);
            assert forall|t: int| 0 <= t < v.len() implies m.hot.contains_key(#[trigger] v[t].key)
                && m.hot[v[t].key].0 == v[t] && matches_query(v[t], query@) by {
                assert(v[t] == out@[t]@);
            }
            assert forall|a: int, b: int| 0 <= a < b < v.len() implies v[a].key != v[b].key by {
                assert(v[a] == out@[a]@ && v[b] == out@[b]@);
            }
            if v.len() < limit {
                assert forall|k: Seq<char>| #[trigger] m.hot.contains_key(k) && matches_query(
                    m.hot[k].0,
                    query@,
                ) implies exists|t: int| 0 <= t < v.len() && v[t].key == k by {
                    let j = choose|j: int| 0 <= j < snap@.len() && #[trigger] snap@[j].0@ == k;
                    assert(m.hot.contains_key(snap@[j].0@));
                    assert(matches_query(snap@[j].1@.0, query@));
                    let t = choose|t: int| 0 <= t < out@.len() && out@[t]@.key == snap@[j].0@;
                    assert(v[t] == out@[t]@);
                }
            }
        }
        out
    }
}

/// Some record of `v` is held under `key`.
pub open spec fn key_in(v: Seq<EntryView>, key: Seq<char>) -> bool {
    exists|i: int| 0 <= i < v.len() && v[i].key == key
}

/// The backend records that a search keeps after the hot tier answered
/// `hot`: in the backend's order, those whose key is not among the hot
/// records, no more than `remaining` of them.
pub open spec fn kept_warm(hot: Seq<EntryView>, warm: Seq<EntryView>, remaining: nat) -> Seq<EntryView>
    decreases warm.len(),
{
    if warm.len() == 0 {
        Seq::empty()
    } else {
        let rest = kept_warm(hot, warm.drop_last(), remaining);
        if rest.len() < remaining && !key_in(hot, warm.last().key) {
            rest.push(warm.last())
        } else {
            rest
        }
    }
}

/// A search keeps no more backend records than the places that remain.
pub proof fn lemma_kept_warm_len(hot: Seq<EntryView>, warm: Seq<EntryView>, remaining: nat)
    ensures
        kept_warm(hot, warm, remaining).len() <= remaining,
    decreases warm.len(),
{
    if warm.len() > 0 {
        lemma_kept_warm_len(hot, warm.drop_last(), remaining);
    }
}

/// The counters after a recall that the hot tier answered with `hot_len`
/// records and the backend with `warm_len` more: one hit for each tier that
/// contributed.
pub open spec fn counters_after_recall(s: CacheStats, hot_len: nat, warm_len: nat) -> CacheStats {
    let s1 = if hot_len > 0 {
        after_hit(s, CacheTier::Hot)
    } else {
        s
    };
    if warm_len > 0 {
        after_hit(s1, CacheTier::Warm)
    } else {
        s1
    }
}

/// Whether some record of `v` is held under `key`.
fn has_key(v: &Vec<MemoryEntry>, key: &String) -> (r: bool)
    ensures
        r == key_in(entries_view(v@), key@),
{
    let n = v.len();
    let mut i: usize = 0;
    while i < n
        invariant
            n == v@.len(),
            i <= n,
            forall|j: int| 0 <= j < i ==> v@[j].key@ != key@,
        decreases n - i,
    {
        if v[i].key == *key {
            assert(entries_view(v@)[i as int].key == key@);
            return true;
        }
        i = i + 1;
    }
    proof {
        if key_in(entries_view(v@), key@) {
            let j = choose|j: int| 0 <= j < entries_view(v@).len() && entries_view(v@)[j].key == key@;
            assert(v@[j].key@ == key@);
        }
    }
    false
}

impl<M> TieredMemory<M> {
    /// First step of a search: answer from the hot tier.
    ///
    /// Where the hot tier alone finds `limit` matches, the search is done and
    /// counted as a hot hit that took `access_us` microseconds; the backend
    /// is not asked. Otherwise the backend is to be asked for the rest; see
    /// [`TieredMemory::finish_recall`].
    pub fn begin_recall(&mut self, query: &str, limit: usize, access_us: u64) -> (r: RecallStep)
        requires
            old(self).wf(),
        ensures
            final(self).wf(),
            final(self).model() == old(self).model(),
            final(self).warm_time() == old(self).warm_time(),
            final(self).same_setup(old(self)),
            match r {
                RecallStep::Done(v) => {
                    &&& hot_answer(old(self).model(), query@, limit as nat, entries_view(v@))
                    &&& v@.len() == limit
                    &&& final(self).counters() == after_hit(old(self).counters(), CacheTier::Hot)
                    &&& final(self).hot_time() == sat_add(old(self).hot_time(), access_us)
                },
                RecallStep::Backend { hot, remaining } => {
                    &&& hot_answer(old(self).model(), query@, limit as nat, entries_view(hot@))
                    &&& hot@.len() + remaining == limit
                    &&& remaining > 0
                    &&& final(self).counters() == old(self).counters()
                    &&& final(self).hot_time() == old(self).hot_time()
                },
            },
    {
        let hot = self.recall_hot(query, limit);
        if hot.len() >= limit {
            self.record_hit(CacheTier::Hot, access_us);
            RecallStep::Done(hot)
        } else {
            let remaining = limit - hot.len();
            RecallStep::Backend { hot, remaining }
        }
    }

    /// Second step of a search, after the backend answered `warm` in
    /// `warm_us` microseconds to a request for `remaining` records.
    ///
    /// The results are the hot records followed by the backend's records
    /// whose key the hot records do not already hold, of which no more than
    /// `remaining` are kept. Each tier that contributed is counted as a hit
    /// (the hot tier's with one microsecond), and, where promotion is
    /// enabled, each kept backend record enters the hot tier in turn.
    pub fn finish_recall(
        &mut self,
        hot: Vec<MemoryEntry>,
        remaining: usize,
        warm: Vec<MemoryEntry>,
        warm_us: u64,
    ) -> (r: Vec<MemoryEntry>)
        requires
            old(self).wf(),
        ensures
            final(self).wf(),
            r@.len() <= hot@.len() + remaining,
            entries_view(r@) == entries_view(hot@) + kept_warm(
                entries_view(hot@),
                entries_view(warm@),
                remaining as nat,
            ),
            final(self).model() == if old(self).promoting() {
                old(self).model().promote_all(
                    kept_warm(entries_view(hot@), entries_view(warm@), remaining as nat),
                    old(self).capacity(),
                )
            } else {
                old(self).model()
            },
            final(self).counters() == if old(self).promoting() {
                counters_after_promote_all(
                    counters_after_recall(
                        old(self).counters(),
                        hot@.len(),
                        kept_warm(entries_view(hot@), entries_view(warm@), remaining as nat).len(),
                    ),
                    old(self).model(),
                    kept_warm(entries_view(hot@), entries_view(warm@), remaining as nat),
                    old(self).capacity(),
                )
            } else {
                counters_after_recall(
                    old(self).counters(),
                    hot@.len(),
                    kept_warm(entries_view(hot@), entries_view(warm@), remaining as nat).len(),
                )
            },
            final(self).hot_time() == if hot@.len() > 0 {
                sat_add(old(self).hot_time(), 1)
            } else {
                old(self).hot_time()
            },
            final(self).warm_time() == if kept_warm(
                entries_view(hot@),
                entries_view(warm@),
                remaining as nat,
            ).len() > 0 {
                sat_add(old(self).warm_time(), warm_us)
            } else {
                old(self).warm_time()
            },
            final(self).same_setup(old(self)),
    {
        let ghost m0 = self.model();
        let ghost hv = entries_view(hot@);
        let ghost wv = entries_view(warm@);
        let mut kept: Vec<MemoryEntry> = Vec::new();
        let n = warm.len();
        let mut i: usize = 0;
        while i < n
            invariant
                n == warm@.len(),
                i <= n,
                hv == entries_view(hot@),
                wv == entries_view(warm@),
                entries_view(kept@) == kept_warm(hv, wv.take(i as int), remaining as nat),
            decreases n - i,
        {
            assert(wv.take(i + 1).drop_last() =~= wv.take(i as int));
            assert(wv.take(i + 1).last() == warm@[i as int]@);
            if kept.len() < remaining && !has_key(&hot, &warm[i].key) {
                let ghost before = kept@;
                kept.push(warm[i].clone());
                assert(entries_view(kept@) =~= entries_view(before).push(warm@[i as int]@));
            }
            i = i + 1;
        }
        assert(wv.take(n as int) =~= wv);
        let ghost ks = entries_view(kept@);
        proof {
            lemma_kept_warm_len(hv, wv, remaining as nat);
        }
        let hot_count = hot.len();
        let take = kept.len();
        let mut results = hot;
        let mut j: usize = 0;
        while j < take
            invariant
                take == kept@.len(),
                j <= take,
                hv.len() == hot_count,
                ks == entries_view(kept@),
                entries_view(results@) =~= hv + ks.take(j as int),
            decreases take - j,
        {
            let ghost before = results@;
            let c = kept[j].clone();
            results.push(c);
            assert(entries_view(results@) =~= entries_view(before).push(kept@[j as int]@));
            assert(ks.take(j + 1) =~= ks.take(j as int).push(kept@[j as int]@));
            j = j + 1;
        }
        assert(ks.take(take as int) =~= ks);
        if hot_count > 0 {
            self.record_hit(CacheTier::Hot, 1);
        }
        if take > 0 {
            self.record_hit(CacheTier::Warm, warm_us);
        }
        let ghost c2 = self.counters();
        if self.config.enable_promotion {
            let mut t: usize = 0;
            while t < take
                invariant
                    take == kept@.len(),
                    t <= take,
                    ks == entries_view(kept@),
                    self.wf(),
                    self.capacity() == old(self).capacity(),
                    self.model() == m0.promote_all(ks.take(t as int), self.capacity()),
                    self.counters() == counters_after_promote_all(
                        c2,
                        m0,
                        ks.take(t as int),
                        self.capacity(),
                    ),
                    self.hot_time() == (if hot_count > 0 {
                        sat_add(old(self).hot_time(), 1)
                    } else {
                        old(self).hot_time()
                    }),
                    self.warm_time() == (if take > 0 {
                        sat_add(old(self).warm_time(), warm_us)
                    } else {
                        old(self).warm_time()
                    }),
                    self.same_setup(old(self)),
                decreases take - t,
            {
                let ghost before = ks.take(t as int);
                self.promote_to_hot(kept[t].clone());
                t = t + 1;
                assert(ks.take(t as int).drop_last() =~= before);
                assert(ks.take(t as int).last() == kept@[t - 1]@);
            }
        }
        results
    }
}

/// Builds a [`TieredMemory`] from a backend and configuration settings,
/// starting from the default configuration.
pub struct TieredMemoryBuilder<M> {
    backend: M,
    config: TieredCacheConfig,
}

impl<M> TieredMemoryBuilder<M> {
    pub closed spec fn spec_config(&self) -> TieredCacheConfig {
        self.config
    }

    pub closed spec fn spec_backend(&self) -> M {
        self.backend
    }

    /// A builder over `backend` with the default configuration.
    pub fn new(backend: M) -> (r: Self)
        ensures
            r.spec_backend() == backend,
            r.spec_config().hot_cache_size == 10_000,
            r.spec_config().warm_cache_size == 100_000,
            r.spec_config().enable_promotion,
            r.spec_config().promotion_threshold == 5,
            r.spec_config().enable_lru,
    {
        TieredMemoryBuilder { backend, config: TieredCacheConfig::default() }
    }

    /// Set the hot tier's capacity in records.
    pub fn hot_cache_size(self, size: usize) -> (r: Self)
        ensures
            r.spec_backend() == self.spec_backend(),
            r.spec_config() == (TieredCacheConfig { hot_cache_size: size, ..self.spec_config() }),
    {
        let mut b = self;
        b.config.hot_cache_size = size;
        b
    }

    /// Set the hot tier's time to live.
    pub fn hot_ttl(self, ttl: Duration) -> (r: Self)
        ensures
            r.spec_backend() == self.spec_backend(),
            r.spec_config() == (TieredCacheConfig { hot_ttl: ttl, ..self.spec_config() }),
    {
        let mut b = self;
        b.config.hot_ttl = ttl;
        b
    }

    /// Set whether records read from or written to the backend enter the
    /// hot tier.
    pub fn enable_promotion(self, enable: bool) -> (r: Self)
        ensures
            r.spec_backend() == self.spec_backend(),
            r.spec_config() == (TieredCacheConfig { enable_promotion: enable, ..self.spec_config() }),
    {
        let mut b = self;
        b.config.enable_promotion = enable;
        b
    }

    /// The engine, with an empty hot tier and zeroed statistics.
    pub fn build(self) -> (r: TieredMemory<M>)
        ensures
            r.wf(),
            r.model() == TierModel::empty(),
            r.counters() == zero_stats(),
            r.spec_config() == self.spec_config(),
            r.spec_backend() == self.spec_backend(),
    {
        TieredMemory::new(self.backend, self.config)
    }
}

/// A search never returns more than `limit` records: the hot tier answers
/// at most `limit`, and where it answers fewer, no more backend records are
/// kept than the places that remain. When nothing matches anywhere, the
/// result is empty.
pub proof fn lemma_recall_within_limit(
    m: TierModel,
    query: Seq<char>,
    limit: nat,
    hot: Seq<EntryView>,
    warm: Seq<EntryView>,
)
    requires
        hot_answer(m, query, limit, hot),
    ensures
        hot.len() <= limit,
        hot.len() < limit ==> (hot + kept_warm(hot, warm, (limit - hot.len()) as nat)).len() <= limit,
        hot.len() == 0 && warm.len() == 0 ==> (hot + kept_warm(hot, warm, limit)).len() == 0,
{
    if hot.len() < limit {
        lemma_kept_warm_len(hot, warm, (limit - hot.len()) as nat);
    }
}

/// The counters after a run of lookups, each answered by a tier (`Some`) or
/// by none (`None`).
pub open spec fn counters_after_lookups(s: CacheStats, outcomes: Seq<Option<CacheTier>>) -> CacheStats
    decreases outcomes.len(),
{
    if outcomes.len() == 0 {
        s
    } else {
        let before = counters_after_lookups(s, outcomes.drop_last());
        match outcomes.last() {
            Some(tier) => after_hit(before, tier),
            None => after_miss(before),
        }
    }
}

/// How many of `outcomes` were answered by some tier.
pub open spec fn answered(outcomes: Seq<Option<CacheTier>>) -> nat
    decreases outcomes.len(),
{
    if outcomes.len() == 0 {
        0
    } else {
        answered(outcomes.drop_last()) + if outcomes.last() is Some {
            1nat
        } else {
            0nat
        }
    }
}

/// The hit and miss counters are exact: from zeroed statistics, after a run
/// of lookups of which `h` were answered and `m` were not, `hits` is `h`,
/// `misses` is `m`, and together they count every lookup. (The hit rate,
/// `100 * h / (h + m)`, or 0 when nothing was counted, is computed from
/// these two.)
pub proof fn lemma_hit_miss_counts(outcomes: Seq<Option<CacheTier>>)
    requires
        outcomes.len() < u64::MAX,
    ensures
        counters_after_lookups(zero_stats(), outcomes).hits == answered(outcomes),
        counters_after_lookups(zero_stats(), outcomes).misses == outcomes.len() - answered(outcomes),
        counters_after_lookups(zero_stats(), outcomes).hits + counters_after_lookups(
            zero_stats(),
            outcomes,
        ).misses == outcomes.len(),
    decreases outcomes.len(),
{
    if outcomes.len() > 0 {
        lemma_hit_miss_counts(outcomes.drop_last());
        assert(answered(outcomes.drop_last()) <= outcomes.len() - 1) by {
            lemma_answered_bound(outcomes.drop_last());
        }
    }
}

proof fn lemma_answered_bound(outcomes: Seq<Option<CacheTier>>)
    ensures
        answered(outcomes) <= outcomes.len(),
    decreases outcomes.len(),
{
    if outcomes.len() > 0 {
        lemma_answered_bound(outcomes.drop_last());
    }
}

} // verus!
