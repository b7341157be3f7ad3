//! The capacity-bounded resolution cache.
//!
//! Structures that several parents reference by byte offset are decoded once
//! and reused. The cache maps an offset to the entry decoded there, holds at
//! most the capacity it was constructed with, and evicts the
//! least-recently-used entry first. Which entry leaves is deliberately left
//! open by the contracts below: eviction affects performance only, never the
//! value a key resolves to.

use vstd::prelude::*;

use std::num::NonZeroUsize;

use crate::annotation::{AnnotationItem, AnnotationSetItem, AnnotationSetRefList};

verus! {

/// One cached resolution: the kind of structure decoded at an offset.
#[derive(Debug, Clone)]
pub enum CachedEntry {
    /// An annotation item.
    Item(AnnotationItem),
    /// An annotation set.
    SetItem(AnnotationSetItem),
    /// An annotation set reference list.
    RefList(AnnotationSetRefList),
}

/// A capacity-bounded offset-to-entry cache with least-recently-used
/// eviction, backed by `lru::LruCache`.
#[verifier::external_body]
pub struct Cache {
    inner: lru::LruCache<u32, CachedEntry>,
}

/// The key-to-entry mapping the cache currently holds. Recency order is not
/// part of this model, so the contracts below cannot (and do not) say which
/// entry an insertion evicts.
pub uninterp spec fn cache_map(c: Cache) -> Map<u32, CachedEntry>;

impl Cache {
    /// Creates an empty cache that holds at most `capacity` entries.
    ///
    /// Relies on `lru::LruCache::new`, which constructs an empty cache with
    /// the given bound.
    #[verifier::external_body]
    pub fn new(capacity: usize) -> (r: Cache)
        requires
            capacity >= 1,
        ensures
            cache_map(r).dom() == Set::<u32>::empty(),
    {
        Cache { inner: lru::LruCache::new(NonZeroUsize::new(capacity).unwrap()) }
    }

    /// Looks up `key`, returning a copy of its entry when present. The
    /// lookup refreshes the key's recency but never changes what any key
    /// maps to.
    ///
    /// Relies on `lru::LruCache::get`, which returns a reference to the
    /// value stored at the key, or `None` when the key is absent, moving the
    /// key to the front of the recency list and changing nothing else.
    #[verifier::external_body]
    pub fn get(&mut self, key: u32) -> (r: Option<CachedEntry>)
        ensures
            cache_map(*final(self)) == cache_map(*old(self)),
            r is Some ==> cache_map(*old(self)).dom().contains(key),
            r matches Some(v) ==> v == cache_map(*old(self))[key],
            r is None ==> !cache_map(*old(self)).dom().contains(key),
    {
        self.inner.get(&key).cloned()
    }

    /// Stores a copy of `value` at `key`. Afterwards `key` maps to `value`;
    /// every other key either keeps its previous entry or has been evicted,
    /// and no key maps to anything new.
    ///
    /// Relies on `lru::LruCache::put`, which updates the value when the key
    /// is present and otherwise inserts it, evicting the least-recently-used
    /// entry when the cache is full.
    #[verifier::external_body]
    pub fn put(&mut self, key: u32, value: &CachedEntry)
        ensures
            cache_map(*final(self)).dom().contains(key),
            cache_map(*final(self))[key] == *value,
            forall|k2: u32|
                #[trigger] cache_map(*final(self)).dom().contains(k2) && k2 != key ==> cache_map(
                    *old(self)).dom().contains(k2) && cache_map(*final(self))[k2] == cache_map(
                    *old(self))[k2],
    {
        self.inner.put(key, value.clone());
    }
}

} // verus!
