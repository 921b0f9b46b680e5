//! The bounded least-recently-used map of the `lru_cache` crate, as the
//! visibility caches use it: keys are `(principal, state hash)`, values the
//! decision.

use vstd::prelude::*;
use lru_cache::LruCache;

verus! {

#[verifier::external_type_specification]
#[verifier::external_body]
#[verifier::reject_recursive_types(K)]
#[verifier::reject_recursive_types(V)]
#[verifier::reject_recursive_types(S)]
pub struct ExLruCache<K: Eq + core::hash::Hash, V, S: core::hash::BuildHasher>(LruCache<K, V, S>);

/// A cache of visibility decisions keyed by principal and state hash.
pub type DecisionCache = LruCache<(String, u64), bool>;

/// The entries a decision cache holds.
pub uninterp spec fn cache_entries(c: DecisionCache) -> Map<(Seq<char>, u64), bool>;

/// The bound a decision cache was made with.
pub uninterp spec fn cache_capacity(c: DecisionCache) -> nat;

/// Relies on `LruCache::new`: an empty cache bounded by `capacity`.
#[verifier::external_body]
pub(crate) fn cache_new(capacity: usize) -> (r: DecisionCache)
    ensures
        cache_entries(r).is_empty(),
        cache_capacity(r) == capacity,
{
    LruCache::new(capacity)
}

/// Relies on `LruCache::get_mut`: the value stored for the key, if any; the
/// lookup only refreshes the key's recency.
#[verifier::external_body]
pub(crate) fn cache_get(c: &mut DecisionCache, k: &(String, u64)) -> (r: Option<bool>)
    ensures
        cache_entries(*final(c)) == cache_entries(*old(c)),
        cache_capacity(*final(c)) == cache_capacity(*old(c)),
        r == (if cache_entries(*old(c)).contains_key(k@) {
            Some(cache_entries(*old(c))[k@])
        } else {
            None
        }),
{
    c.get_mut(k).map(|v| *v)
}

/// Relies on `LruCache::insert`: the pair is stored as the most recently used
/// entry, then, when the cache is over its bound, the least recently used
/// entry is dropped; with a bound of at least one the new pair stays.
#[verifier::external_body]
pub(crate) fn cache_insert(c: &mut DecisionCache, k: (String, u64), v: bool)
    ensures
        cache_capacity(*final(c)) == cache_capacity(*old(c)),
        cache_entries(*final(c)).submap_of(cache_entries(*old(c)).insert(k@, v)),
        cache_capacity(*old(c)) > 0 ==> cache_entries(*final(c)).contains_key(k@)
            && cache_entries(*final(c))[k@] == v,
{
    c.insert(k, v);
}

/// Relies on `LruCache::len`: the number of entries held.
#[verifier::external_body]
pub(crate) fn cache_len(c: &DecisionCache) -> (r: usize)
    ensures
        r == cache_entries(*c).len(),
{
    c.len()
}

/// Relies on `LruCache::clear`: every entry is removed.
#[verifier::external_body]
pub(crate) fn cache_clear(c: &mut DecisionCache)
    ensures
        cache_capacity(*final(c)) == cache_capacity(*old(c)),
        cache_entries(*final(c)).is_empty(),
{
    c.clear();
}

} // verus!
