//! The concurrent map that holds the hot tier, seen through its contents.

use vstd::prelude::*;
use dashmap::DashMap;
use crate::entry::{EntryView, MemoryEntry};

verus! {

#[verifier::external_type_specification]
#[verifier::external_body]
#[verifier::reject_recursive_types(K)]
#[verifier::reject_recursive_types(V)]
#[verifier::reject_recursive_types(S)]
pub struct ExDashMap<K, V, S>(DashMap<K, V, S>);

/// One hot-tier record together with the number of hot hits it has served.
#[derive(Debug)]
pub struct HotSlot {
    pub entry: MemoryEntry,
    pub access_count: u64,
}

impl View for HotSlot {
    type V = (EntryView, u64);

    open spec fn view(&self) -> (EntryView, u64) {
        (self.entry@, self.access_count)
    }
}

impl Clone for HotSlot {
    fn clone(&self) -> (r: Self)
        ensures
            r@ == self@,
    {
        HotSlot { entry: self.entry.clone(), access_count: self.access_count }
    }
}

/// The map type of the hot tier, keyed by record key.
pub type HotMap = DashMap<String, HotSlot>;

/// What the hot map holds: each key, as characters, with its slot.
pub uninterp spec fn hot_contents(m: HotMap) -> Map<Seq<char>, (EntryView, u64)>;

/// Relies on `DashMap::new`: a map that holds nothing.
#[verifier::external_body]
pub(crate) fn hot_new() -> (r: HotMap)
    ensures
        hot_contents(r).dom() == Set::<Seq<char>>::empty(),
{
    DashMap::new()
}

/// Relies on `DashMap::len`: the number of keys held.
#[verifier::external_body]
pub(crate) fn hot_len(m: &HotMap) -> (r: usize)
    ensures
        r == hot_contents(*m).len(),
{
    m.len()
}

/// Relies on `DashMap::get`: a copy of the slot under `key`, if any.
#[verifier::external_body]
pub(crate) fn hot_get(m: &HotMap, key: &str) -> (r: Option<HotSlot>)
    ensures
        match r {
            Some(s) => hot_contents(*m).contains_key(key@) && hot_contents(*m)[key@] == s@,
            None => !hot_contents(*m).contains_key(key@),
        },
{
    m.get(key).map(|r| r.value().clone())
}

/// Relies on `DashMap::insert`: `key` now maps to `slot`, the rest is kept.
#[verifier::external_body]
pub(crate) fn hot_insert(m: &mut HotMap, key: String, slot: HotSlot)
    ensures
        hot_contents(*final(m)) == hot_contents(*old(m)).insert(key@, slot@),
{
    m.insert(key, slot);
}

/// Relies on `DashMap::remove`: `key` is no longer held, the rest is kept.
#[verifier::external_body]
pub(crate) fn hot_remove(m: &mut HotMap, key: &str)
    ensures
        hot_contents(*final(m)) == hot_contents(*old(m)).remove(key@),
{
    m.remove(key);
}

/// Relies on `DashMap::iter`: every key with a copy of its slot, each once,
/// in an order that the map does not promise.
#[verifier::external_body]
pub(crate) fn hot_snapshot(m: &HotMap) -> (r: Vec<(String, HotSlot)>)
    ensures
        forall|i: int|
            0 <= i < r@.len() ==> hot_contents(*m).contains_key(#[trigger] r@[i].0@)
                && hot_contents(*m)[r@[i].0@] == r@[i].1@,
        forall|i: int, j: int| 0 <= i < j < r@.len() ==> r@[i].0@ != r@[j].0@,
        forall|k: Seq<char>|
            hot_contents(*m).contains_key(k) ==> exists|i: int| 0 <= i < r@.len() && #[trigger] r@[i].0@ == k,
{
    m.iter().map(|r| (r.key().clone(), r.value().clone())).collect()
}

} // verus!
