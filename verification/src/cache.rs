//! Memory of filtered facets: for each ranking mode, the facets that a
//! filter offered on a route, keyed by the route (its facets, in order),
//! in caches of bounded size that forget the least recently used
//! entry first.
use vstd::prelude::*;

use lru::LruCache;

use crate::utils::strings_view;

verus! {

#[verifier::external_type_specification]
#[verifier::external_body]
#[verifier::reject_recursive_types(K)]
#[verifier::reject_recursive_types(V)]
#[verifier::reject_recursive_types(S)]
pub struct ExLruCache<K, V, S>(LruCache<K, V, S>);

#[verifier::external_type_specification]
#[verifier::external_body]
pub struct ExDefaultHasher(lru::DefaultHasher);

/// The entries of a cache of filtered facets: each key (a route, its
/// facets in order) with the facets it holds for it.
pub uninterp spec fn lru_entries(c: LruCache<Vec<String>, Vec<String>>) -> Map<Seq<Seq<char>>, Seq<Seq<char>>>;

/// The number of entries a cache of filtered facets was made to hold.
pub uninterp spec fn lru_capacity(c: LruCache<Vec<String>, Vec<String>>) -> nat;

/// What storing `value` for a `key` that a cache of capacity `capacity`
/// lacks does to its entries (`old` before, `new` after): nothing at
/// capacity zero; below capacity the entry joins; at capacity it joins, in
/// place of one entry that leaves.
pub open spec fn put_after_miss(
    old: Map<Seq<Seq<char>>, Seq<Seq<char>>>,
    new: Map<Seq<Seq<char>>, Seq<Seq<char>>>,
    capacity: nat,
    key: Seq<Seq<char>>,
    value: Seq<Seq<char>>,
) -> bool {
    if capacity == 0 {
        new == old
    } else if old.dom().finite() && old.len() < capacity {
        new == old.insert(key, value)
    } else {
        new == old.insert(key, value) || exists|j: Seq<Seq<char>>|
            old.contains_key(j) && new == old.remove(j).insert(key, value)
    }
}

/// A cache of filtered facets that holds at most `capacity` entries and
/// starts empty (`LruCache::with_hasher` with the crate's default hasher).
#[verifier::external_body]
fn lru_with_capacity(capacity: usize) -> (r: LruCache<Vec<String>, Vec<String>>)
    ensures
        lru_entries(r).dom() == Set::<Seq<Seq<char>>>::empty(),
        lru_capacity(r) == capacity,
{
    LruCache::with_hasher(capacity, lru::DefaultHasher::default())
}

/// The facets a cache holds for `key`, if any (`LruCache::get`): a copy of
/// the stored value; the entries stay as they are (`get` only marks the
/// entry as the most recently used one, an order not named here).
#[verifier::external_body]
pub(crate) fn lru_get(c: &mut LruCache<Vec<String>, Vec<String>>, key: &Vec<String>) -> (r: Option<Vec<String>>)
    ensures
        lru_entries(*final(c)) == lru_entries(*old(c)),
        lru_capacity(*final(c)) == lru_capacity(*old(c)),
        r is Some <==> lru_entries(*old(c)).contains_key(strings_view(key@)),
        r is Some ==> strings_view(r->0@) == lru_entries(*old(c))[strings_view(key@)],
{
    c.get(key).cloned()
}

/// Stores `value` for `key` (`LruCache::put`). A key already present gets
/// the new value and its old value comes back. Otherwise nothing comes back;
/// a cache of capacity zero stays as it is, one below capacity gains the
/// entry, and a full cache forgets one entry to make room. Which entry that
/// is (the least recently used one) is left unsaid: the entries as named here
/// do not record the order of use.
#[verifier::external_body]
pub(crate) fn lru_put(c: &mut LruCache<Vec<String>, Vec<String>>, key: Vec<String>, value: Vec<String>) -> (r: Option<
    Vec<String>,
>)
    ensures
        lru_capacity(*final(c)) == lru_capacity(*old(c)),
        lru_entries(*old(c)).contains_key(strings_view(key@)) ==> r is Some && strings_view(r->0@) == lru_entries(
            *old(c),
        )[strings_view(key@)] && lru_entries(*final(c)) == lru_entries(*old(c)).insert(strings_view(key@), strings_view(value@)),
        !lru_entries(*old(c)).contains_key(strings_view(key@)) ==> r is None,
        !lru_entries(*old(c)).contains_key(strings_view(key@)) ==> put_after_miss(
            lru_entries(*old(c)),
            lru_entries(*final(c)),
            lru_capacity(*old(c)),
            strings_view(key@),
            strings_view(value@),
        ),
{
    c.put(key, value)
}

/// The filtered facets remembered for each ranking mode: the largest and
/// the smallest absolute weights, and the largest and the smallest
/// facet-counting weights.
pub struct Cache {
    /// Strictly goal-oriented mode with absolute weights.
    pub max_as_facets: LruCache<Vec<String>, Vec<String>>,
    /// Explore mode with absolute weights.
    pub min_as_facets: LruCache<Vec<String>, Vec<String>>,
    /// Strictly goal-oriented mode with facet-counting weights.
    pub max_fc_facets: LruCache<Vec<String>, Vec<String>>,
    /// Explore mode with facet-counting weights.
    pub min_fc_facets: LruCache<Vec<String>, Vec<String>>,
}

impl Cache {
    /// Four empty caches, each holding at most `capacity` entries.
    pub fn new(capacity: usize) -> (r: Cache)
        ensures
            lru_entries(r.max_as_facets).dom() == Set::<Seq<Seq<char>>>::empty(),
            lru_entries(r.min_as_facets).dom() == Set::<Seq<Seq<char>>>::empty(),
            lru_entries(r.max_fc_facets).dom() == Set::<Seq<Seq<char>>>::empty(),
            lru_entries(r.min_fc_facets).dom() == Set::<Seq<Seq<char>>>::empty(),
            lru_capacity(r.max_as_facets) == capacity,
            lru_capacity(r.min_as_facets) == capacity,
            lru_capacity(r.max_fc_facets) == capacity,
            lru_capacity(r.min_fc_facets) == capacity,
    {
        Cache {
            max_as_facets: lru_with_capacity(capacity),
            min_as_facets: lru_with_capacity(capacity),
            max_fc_facets: lru_with_capacity(capacity),
            min_fc_facets: lru_with_capacity(capacity),
        }
    }
}

} // verus!
