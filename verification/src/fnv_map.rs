//! The FNV-hashed maps that the caches keep their entries in.
//!
//! `fnv::FnvHashMap` is std's `HashMap` with fnv's deterministic `FnvHasher`.
//! vstd specifies `HashMap` operations only for hashers it knows to build
//! consistent hashers, so the operations used here are given their contracts
//! by the wrappers below: each one makes exactly one call into the map.
use vstd::prelude::*;
use fnv::{FnvHashMap, FnvHasher};
use std::hash::BuildHasherDefault;
use std::hash::Hash;

verus! {

#[verifier::external_type_specification]
#[verifier::external_body]
pub struct ExFnvHasher(FnvHasher);

#[verifier::external_type_specification]
#[verifier::external_body]
#[verifier::reject_recursive_types(H)]
pub struct ExBuildHasherDefault<H>(BuildHasherDefault<H>);

/// Key types of the caches' maps: `u64` and pairs of `u64`, whose `==` and
/// `Hash` std defines on the values (componentwise for the pair), so that two
/// keys find the same entry exactly when they are equal values. No other type
/// implements it.
pub(crate) trait CacheKey: Eq + Hash {}

impl CacheKey for u64 {}

impl CacheKey for (u64, u64) {}

/// An empty map, from `FnvHashMap::default` (std's `Default` for `HashMap`
/// with fnv's `FnvBuildHasher`).
pub(crate) fn new_map<K: CacheKey, V>() -> (m: FnvHashMap<K, V>)
    ensures
        m@ == Map::<K, V>::empty(),
{
    FnvHashMap::default()
}

/// std `HashMap::get` on an FNV-hashed map: the value stored under `k`, if any.
#[verifier::external_body]
pub(crate) fn map_get<'a, K: CacheKey, V>(m: &'a FnvHashMap<K, V>, k: &K) -> (r: Option<&'a V>)
    ensures
        match r {
            Some(v) => m@.contains_key(*k) && *v == m@[*k],
            None => !m@.contains_key(*k),
        },
{
    m.get(k)
}

/// std `HashMap::contains_key` on an FNV-hashed map.
#[verifier::external_body]
pub(crate) fn map_contains_key<K: CacheKey, V>(m: &FnvHashMap<K, V>, k: &K) -> (r: bool)
    ensures
        r == m@.contains_key(*k),
{
    m.contains_key(k)
}

/// std `HashMap::insert` on an FNV-hashed map: `k` now maps to `v`, nothing
/// else changes. The value it hands back (the one replaced) is dropped.
#[verifier::external_body]
pub(crate) fn map_insert<K: CacheKey, V>(m: &mut FnvHashMap<K, V>, k: K, v: V)
    ensures
        final(m)@ == old(m)@.insert(k, v),
{
    m.insert(k, v);
}

/// Decides which entries of a map a sweep keeps.
pub(crate) trait EntryFilter<K, V> {
    /// Whether the entry `k => v` is kept.
    spec fn keeps(&self, k: K, v: V) -> bool;

    fn keep(&self, k: &K, v: &V) -> (r: bool)
        ensures
            r == self.keeps(*k, *v),
    ;
}

/// std `HashMap::retain` on an FNV-hashed map, with `filter.keep` as the
/// predicate. std calls the predicate once on each entry and keeps exactly
/// the entries on which it returned `true`, unchanged.
#[verifier::external_body]
pub(crate) fn map_retain<K: CacheKey, V, F: EntryFilter<K, V>>(m: &mut FnvHashMap<K, V>, filter: &F)
    ensures
        final(m)@ == Map::new(
            |k: K| old(m)@.contains_key(k) && filter.keeps(k, old(m)@[k]),
            |k: K| old(m)@[k],
        ),
{
    m.retain(|k, v| filter.keep(k, v))
}

/// std `HashMap::keys` on an FNV-hashed map, copied into a `Vec`: each key
/// of the map once, in the map's iteration order (which this contract leaves
/// open).
#[verifier::external_body]
pub(crate) fn map_keys<K: CacheKey + Copy, V>(m: &FnvHashMap<K, V>) -> (r: Vec<K>)
    ensures
        r@.to_set() == m@.dom(),
        r@.no_duplicates(),
{
    m.keys().copied().collect()
}

} // verus!
