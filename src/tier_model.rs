//! The hot tier as a mathematical value, and the laws it obeys.

use vstd::prelude::*;
use crate::entry::EntryView;
use crate::tiered::sat_inc;

verus! {

/// The hot tier as a mathematical value: what it maps each key to (the
/// record and its hot-hit count), and the recency order of the keys, most
/// recently promoted first.
pub struct TierModel {
    pub hot: Map<Seq<char>, (EntryView, u64)>,
    pub lru: Seq<Seq<char>>,
}

impl TierModel {
    /// The hot tier that holds nothing.
    pub open spec fn empty() -> TierModel {
        TierModel { hot: Map::empty(), lru: Seq::empty() }
    }

    /// Well-formed for a capacity of `cap` entries: the recency order lists
    /// each held key exactly once, no more than `cap` of them, and each
    /// record is held under its own key.
    pub open spec fn wf(self, cap: nat) -> bool {
        &&& self.lru.no_duplicates()
        &&& self.lru.len() <= cap
        &&& forall|k: Seq<char>| self.hot.contains_key(k) <==> self.lru.contains(k)
        &&& forall|k: Seq<char>| #[trigger] self.hot.contains_key(k) ==> self.hot[k].0.key == k
    }

    /// The record that the hot tier holds under `key`.
    pub open spec fn lookup(self, key: Seq<char>) -> Option<EntryView> {
        if self.hot.contains_key(key) {
            Some(self.hot[key].0)
        } else {
            None
        }
    }

    /// Whether promoting `e` must first evict the least recently promoted key.
    pub open spec fn evicts(self, e: EntryView, cap: nat) -> bool {
        cap > 0 && !self.hot.contains_key(e.key) && self.lru.len() >= cap
    }

    /// The hot tier after `e` is promoted: it is held under its key and its
    /// key moves to the front of the recency order. A key already held keeps
    /// its hit count; a new one starts at 0 and, when the tier is full,
    /// takes the place of the key at the back. Nothing fits a capacity of 0.
    pub open spec fn promote(self, e: EntryView, cap: nat) -> TierModel {
        let k = e.key;
        if cap == 0 {
            self
        } else if self.hot.contains_key(k) {
            TierModel {
                hot: self.hot.insert(k, (e, self.hot[k].1)),
                lru: seq![k] + self.lru.remove(self.lru.index_of(k)),
            }
        } else if self.lru.len() >= cap {
            TierModel {
                hot: self.hot.remove(self.lru.last()).insert(k, (e, 0)),
                lru: seq![k] + self.lru.drop_last(),
            }
        } else {
            TierModel { hot: self.hot.insert(k, (e, 0)), lru: seq![k] + self.lru }
        }
    }

    /// Promote each of `es` in turn.
    pub open spec fn promote_all(self, es: Seq<EntryView>, cap: nat) -> TierModel
        decreases es.len(),
    {
        if es.len() == 0 {
            self
        } else {
            self.promote_all(es.drop_last(), cap).promote(es.last(), cap)
        }
    }

    /// The hot tier without `key`.
    pub open spec fn forget(self, key: Seq<char>) -> TierModel {
        if self.hot.contains_key(key) {
            TierModel { hot: self.hot.remove(key), lru: self.lru.remove(self.lru.index_of(key)) }
        } else {
            self
        }
    }

    /// The hot tier after a hot hit on `key`: its hit count goes up by one.
    pub open spec fn touch(self, key: Seq<char>) -> TierModel {
        if self.hot.contains_key(key) {
            TierModel {
                hot: self.hot.insert(key, (self.hot[key].0, sat_inc(self.hot[key].1))),
                lru: self.lru,
            }
        } else {
            self
        }
    }
}

/// In a sequence without duplicates, `index_of` finds the one position of a
/// present value.
pub(crate) proof fn lemma_index_of_unique(s: Seq<Seq<char>>, i: int)
    requires
        s.no_duplicates(),
        0 <= i < s.len(),
    ensures
        s.index_of(s[i]) == i,
{
    assert(s.contains(s[i]));
    let j = s.index_of(s[i]);
    assert(0 <= j < s.len() && s[j] == s[i]);
}

/// Removing one position keeps a sequence free of duplicates and drops
/// exactly the value at that position.
proof fn lemma_remove_at(s: Seq<Seq<char>>, i: int)
    requires
        s.no_duplicates(),
        0 <= i < s.len(),
    ensures
        s.remove(i).no_duplicates(),
        forall|k: Seq<char>| s.remove(i).contains(k) <==> (s.contains(k) && k != s[i]),
{
    let r = s.remove(i);
    assert forall|a: int, b: int| 0 <= a < r.len() && 0 <= b < r.len() && a != b implies r[a]
        != r[b] by {
        let a2 = if a < i { a } else { a + 1 };
        let b2 = if b < i { b } else { b + 1 };
        assert(r[a] == s[a2] && r[b] == s[b2]);
    }
    assert forall|k: Seq<char>| r.contains(k) <==> (s.contains(k) && k != s[i]) by {
        if r.contains(k) {
            let a = choose|a: int| 0 <= a < r.len() && r[a] == k;
            let a2 = if a < i { a } else { a + 1 };
            assert(s[a2] == k);
        }
        if s.contains(k) && k != s[i] {
            let a = choose|a: int| 0 <= a < s.len() && s[a] == k;
            if a < i {
                assert(r[a] == k);
            } else {
                assert(a != i);
                assert(r[a - 1] == k);
            }
        }
    }
}

/// Putting a value that is absent in front keeps a sequence free of
/// duplicates.
proof fn lemma_push_front(s: Seq<Seq<char>>, k: Seq<char>)
    requires
        s.no_duplicates(),
        !s.contains(k),
    ensures
        (seq![k] + s).no_duplicates(),
        forall|x: Seq<char>| (seq![k] + s).contains(x) <==> (x == k || s.contains(x)),
{
    let r = seq![k] + s;
    assert forall|a: int, b: int| 0 <= a < r.len() && 0 <= b < r.len() && a != b implies r[a]
        != r[b] by {
        if a == 0 {
            assert(r[b] == s[b - 1]);
        } else if b == 0 {
            assert(r[a] == s[a - 1]);
        } else {
            assert(r[a] == s[a - 1] && r[b] == s[b - 1]);
        }
    }
    assert forall|x: Seq<char>| r.contains(x) <==> (x == k || s.contains(x)) by {
        if r.contains(x) {
            let a = choose|a: int| 0 <= a < r.len() && r[a] == x;
            if a > 0 {
                assert(s[a - 1] == x);
            }
        }
        if x == k {
            assert(r[0] == x);
        }
        if s.contains(x) {
            let a = choose|a: int| 0 <= a < s.len() && s[a] == x;
            assert(r[a + 1] == x);
        }
    }
}

/// Promotion keeps the hot tier well-formed.
pub proof fn lemma_promote_wf(m: TierModel, e: EntryView, cap: nat)
    requires
        m.wf(cap),
    ensures
        m.promote(e, cap).wf(cap),
{
    let k = e.key;
    let r = m.promote(e, cap);
    if cap == 0 {
    } else if m.hot.contains_key(k) {
        let i = m.lru.index_of(k);
        assert(m.lru.contains(k));
        assert(0 <= i < m.lru.len() && m.lru[i] == k);
        lemma_remove_at(m.lru, i);
        lemma_push_front(m.lru.remove(i), k);
        assert forall|x: Seq<char>| r.hot.contains_key(x) <==> r.lru.contains(x) by {
            if x != k {
                assert(m.hot.contains_key(x) <==> m.lru.contains(x));
            }
        }
        assert forall|x: Seq<char>| #[trigger] r.hot.contains_key(x) implies r.hot[x].0.key
            == x by {
            if x != k {
                assert(m.hot.contains_key(x));
            }
        }
    } else if m.lru.len() >= cap {
        let last = m.lru.len() - 1;
        let v = m.lru.last();
        assert(m.lru.drop_last() =~= m.lru.remove(last));
        assert(m.lru[last] == v);
        assert(m.lru.contains(v));
        lemma_remove_at(m.lru, last);
        assert(!m.lru.contains(k));
        lemma_push_front(m.lru.drop_last(), k);
        assert forall|x: Seq<char>| r.hot.contains_key(x) <==> r.lru.contains(x) by {
            if x != k && x != v {
                assert(m.hot.contains_key(x) <==> m.lru.contains(x));
            }
        }
        assert forall|x: Seq<char>| #[trigger] r.hot.contains_key(x) implies r.hot[x].0.key
            == x by {
            if x != k {
                assert(m.hot.contains_key(x));
            }
        }
    } else {
        assert(!m.lru.contains(k));
        lemma_push_front(m.lru, k);
        assert forall|x: Seq<char>| r.hot.contains_key(x) <==> r.lru.contains(x) by {
            if x != k {
                assert(m.hot.contains_key(x) <==> m.lru.contains(x));
            }
        }
        assert forall|x: Seq<char>| #[trigger] r.hot.contains_key(x) implies r.hot[x].0.key
            == x by {
            if x != k {
                assert(m.hot.contains_key(x));
            }
        }
    }
}

/// Forgetting a key keeps the hot tier well-formed.
pub proof fn lemma_forget_wf(m: TierModel, key: Seq<char>, cap: nat)
    requires
        m.wf(cap),
    ensures
        m.forget(key).wf(cap),
{
    let r = m.forget(key);
    if m.hot.contains_key(key) {
        assert(m.lru.contains(key));
        let i = m.lru.index_of(key);
        assert(0 <= i < m.lru.len() && m.lru[i] == key);
        lemma_remove_at(m.lru, i);
        assert forall|x: Seq<char>| r.hot.contains_key(x) <==> r.lru.contains(x) by {
            if x != key {
                assert(m.hot.contains_key(x) <==> m.lru.contains(x));
            }
        }
        assert forall|x: Seq<char>| #[trigger] r.hot.contains_key(x) implies r.hot[x].0.key
            == x by {
            assert(m.hot.contains_key(x));
        }
    }
}

/// Promoting records with distinct keys, no more of them than the capacity,
/// puts their keys at the front of the recency order, newest first, and
/// leaves each of them held.
proof fn lemma_promote_all_front(m: TierModel, es: Seq<EntryView>, cap: nat)
    requires
        m.wf(cap),
        es.len() <= cap,
        forall|i: int, j: int| 0 <= i < j < es.len() ==> es[i].key != es[j].key,
    ensures
        m.promote_all(es, cap).wf(cap),
        m.promote_all(es, cap).lru.len() >= es.len(),
        forall|j: int|
            0 <= j < es.len() ==> #[trigger] m.promote_all(es, cap).lru[j] == es[es.len() - 1 - j].key,
        forall|i: int| 0 <= i < es.len() ==> m.promote_all(es, cap).lookup(#[trigger] es[i].key) == Some(es[i]),
    decreases es.len(),
{
    if es.len() > 0 {
        let n = es.len();
        let prev = es.drop_last();
        let e = es.last();
        lemma_promote_all_front(m, prev, cap);
        let r = m.promote_all(prev, cap);
        let r2 = r.promote(e, cap);
        lemma_promote_wf(r, e, cap);
        assert(r2 == m.promote_all(es, cap));
        assert forall|j: int| 0 <= j < n - 1 implies r.lru[j] != e.key by {
            assert(r.lru[j] == prev[n - 2 - j].key);
            assert(prev[n - 2 - j] == es[n - 2 - j]);
        }
        if r.hot.contains_key(e.key) {
            assert(r.lru.contains(e.key));
            let idx = r.lru.index_of(e.key);
            assert(0 <= idx < r.lru.len() && r.lru[idx] == e.key);
            assert(idx >= n - 1);
            assert forall|j: int| 0 <= j < n implies #[trigger] r2.lru[j] == es[n - 1 - j].key by {
                if j > 0 {
                    assert(r2.lru[j] == r.lru.remove(idx)[j - 1]);
                    assert(r.lru.remove(idx)[j - 1] == r.lru[j - 1]);
                    assert(prev[n - 1 - j] == es[n - 1 - j]);
                }
            }
        } else if r.lru.len() >= cap {
            let last = r.lru.len() - 1;
            assert(last >= n - 1);
            assert forall|j: int| 0 <= j < n implies #[trigger] r2.lru[j] == es[n - 1 - j].key by {
                if j > 0 {
                    assert(r2.lru[j] == r.lru[j - 1]);
                    assert(prev[n - 1 - j] == es[n - 1 - j]);
                }
            }
            assert forall|i: int| 0 <= i < n - 1 implies prev[i].key != r.lru.last() by {
                assert(r.lru[n - 2 - i] == prev[i].key);
                assert(r.lru[last] == r.lru.last());
            }
        } else {
            assert forall|j: int| 0 <= j < n implies #[trigger] r2.lru[j] == es[n - 1 - j].key by {
                if j > 0 {
                    assert(r2.lru[j] == r.lru[j - 1]);
                    assert(prev[n - 1 - j] == es[n - 1 - j]);
                }
            }
        }
        assert forall|i: int| 0 <= i < n implies r2.lookup(#[trigger] es[i].key) == Some(es[i]) by {
            if i < n - 1 {
                assert(prev[i] == es[i]);
                assert(r.lookup(prev[i].key) == Some(prev[i]));
                assert(es[i].key != e.key);
            }
        }
    }
}

/// Write-then-read: once a record has been promoted into a hot tier with
/// room for at least one record, the hot tier answers a lookup of its key
/// with exactly that record, so a lookup right after a store returns the
/// content stored.
pub proof fn lemma_store_then_lookup(m: TierModel, e: EntryView, cap: nat)
    requires
        m.wf(cap),
        cap > 0,
    ensures
        m.promote(e, cap).lookup(e.key) == Some(e),
{
}

/// Storing records under distinct keys, no more of them than the hot tier's
/// capacity, leaves every one of them in the hot tier: each later lookup of
/// one of those keys is a hot hit.
pub proof fn lemma_stores_within_capacity_stay_hot(m: TierModel, es: Seq<EntryView>, cap: nat)
    requires
        m.wf(cap),
        es.len() <= cap,
        forall|i: int, j: int| 0 <= i < j < es.len() ==> es[i].key != es[j].key,
    ensures
        forall|i: int| 0 <= i < es.len() ==> m.promote_all(es, cap).lookup(#[trigger] es[i].key) == Some(es[i]),
{
    lemma_promote_all_front(m, es, cap);
}

/// Storing one record more than the hot tier holds, all under distinct
/// keys, evicts the first one stored: the next lookup of its key misses the
/// hot tier and goes to the backend.
pub proof fn lemma_overflow_evicts_first_stored(m: TierModel, es: Seq<EntryView>, cap: nat)
    requires
        m.wf(cap),
        cap > 0,
        es.len() == cap + 1,
        forall|i: int, j: int| 0 <= i < j < es.len() ==> es[i].key != es[j].key,
    ensures
        m.promote_all(es, cap).lookup(es[0].key) is None,
{
    let prev = es.drop_last();
    let e = es.last();
    lemma_promote_all_front(m, prev, cap);
    let r = m.promote_all(prev, cap);
    assert(r.lru.len() == cap);
    assert(r.lru[cap - 1] == prev[0].key);
    assert(prev[0] == es[0]);
    assert(r.lru.last() == es[0].key);
    assert(!r.lru.contains(e.key)) by {
        if r.lru.contains(e.key) {
            let j = choose|j: int| 0 <= j < r.lru.len() && r.lru[j] == e.key;
            assert(r.lru[j] == prev[cap - 1 - j].key);
            assert(prev[cap - 1 - j] == es[cap - 1 - j]);
        }
    }
    assert(!r.hot.contains_key(e.key));
    assert(es[0].key != e.key);
}

/// Forgetting a key leaves the hot tier without it, whatever it held
/// before: the next lookup of the key misses the hot tier.
pub proof fn lemma_forget_then_lookup(m: TierModel, key: Seq<char>)
    ensures
        m.forget(key).lookup(key) is None,
{
}

} // verus!
