//! Ranking of facets by weight: the candidates for the next step (each
//! current facet, inclusive and exclusive), their weights from what the
//! solver measured, and the choice of the candidates of largest or smallest
//! weight that a navigation mode offers, remembered per route.
use vstd::prelude::*;

use lru::LruCache;

use crate::cache::{lru_capacity, lru_entries, lru_get, lru_put, put_after_miss, Cache};
use crate::navigator::{lemma_filter_push, Mode, Weight};
use crate::symbol::{show, SymbolView};
use crate::text::copy_string;
use crate::utils::{copy_strings, strings_view, Facets, Repr, Route};

verus! {

/// The written forms of the candidates for a step: for each facet `f` in
/// order, `f` and then `~f`.
pub open spec fn candidates_of(fs: Seq<SymbolView>) -> Seq<Seq<char>> {
    Seq::new(
        2 * fs.len(),
        |k: int|
            if k % 2 == 0 {
                show(fs[k / 2])
            } else {
                seq!['~'] + show(fs[k / 2])
            },
    )
}

/// The candidates for a step from the current facets.
pub fn candidates(facets: &Facets) -> (r: Vec<String>)
    requires
        2 * facets@.len() <= usize::MAX,
    ensures
        strings_view(r@) == candidates_of(facets@),
{
    let mut r: Vec<String> = Vec::new();
    let mut i: usize = 0;
    while i < facets.0.len()
        invariant
            i <= facets@.len(),
            facets@.len() == facets.0@.len(),
            2 * facets@.len() <= usize::MAX,
            r@.len() == 2 * i,
            forall|k: int| 0 <= k < 2 * i ==> #[trigger] r@[k]@ == candidates_of(facets@)[k],
        decreases facets@.len() - i,
    {
        let inclusive = facets.0[i].repr();
        let exclusive = facets.0[i].exclusive_repr();
        r.push(inclusive);
        r.push(exclusive);
        proof {
            assert(facets.0@[i as int]@ == facets@[i as int]);
            assert forall|k: int| 0 <= k < 2 * (i + 1) implies #[trigger] r@[k]@ == candidates_of(
                facets@,
            )[k] by {
                if k == 2 * i {
                    assert(k / 2 == i && k % 2 == 0);
                } else if k == 2 * i + 1 {
                    assert(k / 2 == i && k % 2 == 1);
                }
            }
        }
        i = i + 1;
    }
    assert(strings_view(r@) =~= candidates_of(facets@));
    r
}

/// The written forms and the weights of weighted candidates.
pub open spec fn pairs_view(data: Seq<(String, usize)>) -> Seq<(Seq<char>, usize)> {
    data.map_values(|d: (String, usize)| (d.0@, d.1))
}

/// The candidates with facet-counting weights: a candidate that leaves
/// `sizes[k]` of the `count` current facets rules out the others.
pub open spec fn facet_counting_pairs(cands: Seq<Seq<char>>, count: usize, sizes: Seq<usize>) -> Seq<
    (Seq<char>, usize),
> {
    Seq::new(sizes.len(), |k: int| (cands[k], (count - sizes[k]) as usize))
}

/// The candidates with absolute weights: with `count` answer sets on the
/// route and `counts[i]` of them containing the `i`-th facet, the facet rules
/// out the others and its exclusive form rules out those.
pub open spec fn absolute_pairs(cands: Seq<Seq<char>>, count: usize, counts: Seq<usize>) -> Seq<
    (Seq<char>, usize),
> {
    Seq::new(
        2 * counts.len(),
        |k: int|
            (
                cands[k],
                if k % 2 == 0 {
                    (count - counts[k / 2]) as usize
                } else {
                    counts[k / 2]
                },
            ),
    )
}

/// The candidates for a step with their facet-counting weights, from the
/// number of current facets `count` and the number of facets each candidate
/// leaves (`sizes`, in the order of the candidates).
pub fn facet_counting_data(facets: &Facets, count: usize, sizes: &[usize]) -> (r: Vec<(String, usize)>)
    requires
        2 * facets@.len() <= usize::MAX,
        sizes@.len() == 2 * facets@.len(),
        forall|k: int| 0 <= k < sizes@.len() ==> #[trigger] sizes@[k] <= count,
    ensures
        pairs_view(r@) == facet_counting_pairs(candidates_of(facets@), count, sizes@),
{
    let names = candidates(facets);
    assert(strings_view(names@).len() == names@.len());
    assert(candidates_of(facets@).len() == 2 * facets@.len());
    let ghost target = facet_counting_pairs(candidates_of(facets@), count, sizes@);
    let mut r: Vec<(String, usize)> = Vec::new();
    let mut k: usize = 0;
    while k < sizes.len()
        invariant
            k <= sizes@.len(),
            names@.len() == sizes@.len(),
            strings_view(names@) == candidates_of(facets@),
            target == facet_counting_pairs(candidates_of(facets@), count, sizes@),
            forall|j: int| 0 <= j < sizes@.len() ==> #[trigger] sizes@[j] <= count,
            r@.len() == k,
            forall|j: int| 0 <= j < k ==> #[trigger] pairs_view(r@)[j] == target[j],
        decreases sizes@.len() - k,
    {
        let name = copy_string(&names[k]);
        let w = count - sizes[k];
        proof {
            assert(strings_view(names@)[k as int] == names@[k as int]@);
        }
        let ghost before = r@;
        r.push((name, w));
        proof {
            assert forall|j: int| 0 <= j < k + 1 implies #[trigger] pairs_view(r@)[j] == target[j] by {
                assert(pairs_view(r@)[j] == (r@[j].0@, r@[j].1));
                if j < k {
                    assert(r@[j] == before[j]);
                    assert(pairs_view(before)[j] == (before[j].0@, before[j].1));
                }
            }
        }
        k = k + 1;
    }
    assert(pairs_view(r@) =~= target);
    r
}

/// The candidates for a step with their absolute weights, from the number
/// of answer sets on the route (`count`) and the number of them that
/// contain each facet (`counts`, in the order of the facets).
pub fn absolute_data(facets: &Facets, count: usize, counts: &[usize]) -> (r: Vec<(String, usize)>)
    requires
        2 * facets@.len() <= usize::MAX,
        counts@.len() == facets@.len(),
        forall|i: int| 0 <= i < counts@.len() ==> #[trigger] counts@[i] <= count,
    ensures
        pairs_view(r@) == absolute_pairs(candidates_of(facets@), count, counts@),
{
    let names = candidates(facets);
    assert(strings_view(names@).len() == names@.len());
    assert(candidates_of(facets@).len() == 2 * facets@.len());
    let ghost target = absolute_pairs(candidates_of(facets@), count, counts@);
    let mut r: Vec<(String, usize)> = Vec::new();
    let mut i: usize = 0;
    while i < counts.len()
        invariant
            i <= counts@.len(),
            2 * counts@.len() <= usize::MAX,
            names@.len() == 2 * counts@.len(),
            strings_view(names@) == candidates_of(facets@),
            target == absolute_pairs(candidates_of(facets@), count, counts@),
            forall|j: int| 0 <= j < counts@.len() ==> #[trigger] counts@[j] <= count,
            r@.len() == 2 * i,
            forall|k: int| 0 <= k < 2 * i ==> #[trigger] pairs_view(r@)[k] == target[k],
        decreases counts@.len() - i,
    {
        let w = Weight::Absolute.weigh(count, counts[i]);
        let inverse = match w.1 {
            Some(v) => v,
            None => counts[i],
        };
        let inclusive = copy_string(&names[2 * i]);
        let exclusive = copy_string(&names[2 * i + 1]);
        proof {
            assert(strings_view(names@)[2 * i] == names@[2 * i]@);
            assert(strings_view(names@)[2 * i + 1] == names@[2 * i + 1]@);
        }
        let ghost before = r@;
        r.push((inclusive, w.0));
        r.push((exclusive, inverse));
        proof {
            assert forall|k: int| 0 <= k < 2 * (i + 1) implies #[trigger] pairs_view(r@)[k]
                == target[k] by {
                assert(pairs_view(r@)[k] == (r@[k].0@, r@[k].1));
                if k < 2 * i {
                    assert(r@[k] == before[k]);
                    assert(pairs_view(before)[k] == (before[k].0@, before[k].1));
                } else if k == 2 * i {
                    assert(k / 2 == i && k % 2 == 0);
                } else {
                    assert(k / 2 == i && k % 2 == 1);
                }
            }
        }
        i = i + 1;
    }
    assert(pairs_view(r@) =~= target);
    r
}

/// Whether no weight of `data` is larger (`maximize`) or smaller than `w`.
pub open spec fn is_top(data: Seq<(Seq<char>, usize)>, maximize: bool, w: usize) -> bool {
    forall|j: int|
        0 <= j < data.len() ==> if maximize {
            #[trigger] data[j].1 <= w
        } else {
            data[j].1 >= w
        }
}

/// The candidates of largest (`maximize`) or smallest weight, in order.
pub open spec fn ranked(data: Seq<(Seq<char>, usize)>, maximize: bool) -> Seq<Seq<char>> {
    data.filter(|d: (Seq<char>, usize)| is_top(data, maximize, d.1)).map_values(
        |d: (Seq<char>, usize)| d.0,
    )
}

/// The candidates of largest (`maximize`) or smallest weight, in the order
/// of `data`.
pub fn rank(data: &[(String, usize)], maximize: bool) -> (r: Vec<String>)
    requires
        data@.len() > 0,
    ensures
        strings_view(r@) == ranked(pairs_view(data@), maximize),
{
    let ghost pv = pairs_view(data@);
    let mut top = data[0].1;
    let mut i: usize = 1;
    while i < data.len()
        invariant
            1 <= i <= data@.len(),
            pv == pairs_view(data@),
            exists|k: int| 0 <= k < i && #[trigger] data@[k].1 == top,
            forall|j: int|
                0 <= j < i ==> if maximize {
                    #[trigger] data@[j].1 <= top
                } else {
                    data@[j].1 >= top
                },
        decreases data@.len() - i,
    {
        if (maximize && data[i].1 > top) || (!maximize && data[i].1 < top) {
            top = data[i].1;
        }
        i = i + 1;
    }
    let ghost p = |d: (Seq<char>, usize)| is_top(pv, maximize, d.1);
    let ghost name = |d: (Seq<char>, usize)| d.0;
    proof {
        assert forall|j: int| 0 <= j < pv.len() implies (is_top(pv, maximize, #[trigger] pv[j].1)
            <==> pv[j].1 == top) by {
            assert(forall|i: int| 0 <= i < pv.len() ==> #[trigger] pv[i] == (data@[i].0@, data@[i].1));
            let k = choose|k: int| 0 <= k < data@.len() && #[trigger] data@[k].1 == top;
            if is_top(pv, maximize, pv[j].1) {
                assert(pv[k].1 == top);
            }
            if pv[j].1 == top {
                assert forall|i: int| 0 <= i < pv.len() implies if maximize {
                    #[trigger] pv[i].1 <= pv[j].1
                } else {
                    pv[i].1 >= pv[j].1
                } by {
                    assert(pv[i].1 == data@[i].1);
                }
            }
        }
    }
    let mut r: Vec<String> = Vec::new();
    let mut k: usize = 0;
    while k < data.len()
        invariant
            k <= data@.len(),
            pv == pairs_view(data@),
            p == (|d: (Seq<char>, usize)| is_top(pv, maximize, d.1)),
            name == (|d: (Seq<char>, usize)| d.0),
            pv.len() == data@.len(),
            forall|j: int| 0 <= j < pv.len() ==> (is_top(pv, maximize, #[trigger] pv[j].1) <==> pv[j].1 == top),
            strings_view(r@) == pv.subrange(0, k as int).filter(p).map_values(name),
        decreases data@.len() - k,
    {
        let ghost before = pv.subrange(0, k as int);
        proof {
            assert(pv.subrange(0, k + 1) =~= before.push(pv[k as int]));
            lemma_filter_push(before, pv[k as int], p);
            assert(pv[k as int] == (data@[k as int].0@, data@[k as int].1));
        }
        if data[k].1 == top {
            let t = copy_string(&data[k].0);
            r.push(t);
            proof {
                assert(strings_view(r@) =~= strings_view(r@.drop_last()).push(t@));
                assert(before.filter(p).push(pv[k as int]).map_values(name) =~= before.filter(
                    p,
                ).map_values(name).push(t@));
            }
        }
        k = k + 1;
    }
    proof {
        assert(pv.subrange(0, data@.len() as int) =~= pv);
    }
    r
}

impl Mode {
    /// Whether the mode ranks facets, and then whether it offers those of
    /// largest weight (strictly goal-oriented) or of smallest weight
    /// (explore); the other modes offer no ranking.
    pub open spec fn ranks(self) -> Option<bool> {
        match self {
            Mode::StrictlyGoalOriented(Weight::Absolute) => Some(true),
            Mode::StrictlyGoalOriented(Weight::FacetCounting) => Some(true),
            Mode::Explore(Weight::Absolute) => Some(false),
            Mode::Explore(Weight::FacetCounting) => Some(false),
            _ => None,
        }
    }

    /// Whether the mode ranks facets, and by which end.
    pub fn ranking(&self) -> (r: Option<bool>)
        ensures
            r == self.ranks(),
    {
        match self {
            Mode::StrictlyGoalOriented(Weight::Absolute) => Some(true),
            Mode::StrictlyGoalOriented(Weight::FacetCounting) => Some(true),
            Mode::Explore(Weight::Absolute) => Some(false),
            Mode::Explore(Weight::FacetCounting) => Some(false),
            _ => None,
        }
    }
}

/// Absolute weights split the answer sets: the weight of a facet and that of
/// its exclusive form add up to the number of answer sets on the route.
pub proof fn lemma_absolute_weights_split(cands: Seq<Seq<char>>, count: usize, counts: Seq<usize>, i: int)
    requires
        0 <= i < counts.len(),
        counts[i] <= count,
    ensures
        absolute_pairs(cands, count, counts)[2 * i].1 + absolute_pairs(cands, count, counts)[2 * i
            + 1].1 == count,
{
    assert((2 * i) % 2 == 0 && (2 * i) / 2 == i);
    assert((2 * i + 1) % 2 == 1 && (2 * i + 1) / 2 == i);
}

/// A ranking of some candidates offers at least one of them: a largest
/// (or smallest) weight is always reached.
pub proof fn lemma_ranked_nonempty(data: Seq<(Seq<char>, usize)>, maximize: bool)
    requires
        data.len() > 0,
    ensures
        ranked(data, maximize).len() > 0,
{
    let p = |d: (Seq<char>, usize)| is_top(data, maximize, d.1);
    let k = extreme_position(data, maximize, data.len() as int);
    assert(p(data[k]));
    data.filter_lemma(p);
    if data.filter(p).len() == 0 {
        lemma_filter_empty_none(data, p, k);
    }
}

/// The position of a largest (`maximize`) or smallest weight among the
/// first `n` candidates.
proof fn extreme_position(data: Seq<(Seq<char>, usize)>, maximize: bool, n: int) -> (k: int)
    requires
        0 < n <= data.len(),
    ensures
        0 <= k < n,
        forall|j: int|
            0 <= j < n ==> if maximize {
                #[trigger] data[j].1 <= data[k].1
            } else {
                data[j].1 >= data[k].1
            },
    decreases n,
{
    if n == 1 {
        0
    } else {
        let k0 = extreme_position(data, maximize, n - 1);
        if (maximize && data[n - 1].1 > data[k0].1) || (!maximize && data[n - 1].1 < data[k0].1) {
            n - 1
        } else {
            k0
        }
    }
}

proof fn lemma_filter_empty_none<A>(s: Seq<A>, p: spec_fn(A) -> bool, k: int)
    requires
        0 <= k < s.len(),
        p(s[k]),
    ensures
        s.filter(p).len() > 0,
    decreases s.len(),
{
    reveal_with_fuel(Seq::filter, 1);
    assert(s.drop_last().push(s.last()) =~= s);
    if k < s.len() - 1 {
        assert(s.drop_last()[k] == s[k]);
        lemma_filter_empty_none(s.drop_last(), p, k);
        s.drop_last().filter_lemma(p);
    }
}

/// Filtering one route never gives another route an entry: after a ranking
/// mode has filtered `key`, any other route the cache holds facets for it
/// held before, with the same facets.
pub proof fn lemma_filter_keeps_other_routes(
    old: Map<Seq<Seq<char>>, Seq<Seq<char>>>,
    new: Map<Seq<Seq<char>>, Seq<Seq<char>>>,
    capacity: nat,
    key: Seq<Seq<char>>,
    value: Seq<Seq<char>>,
    other: Seq<Seq<char>>,
)
    requires
        put_after_miss(old, new, capacity, key, value),
        other != key,
    ensures
        new.contains_key(other) ==> old.contains_key(other) && new[other] == old[other],
{
    if capacity > 0 && !(old.dom().finite() && old.len() < capacity) && new != old.insert(key, value) {
        let j = choose|j: Seq<Seq<char>>| old.contains_key(j) && new == old.remove(j).insert(key, value);
    }
}

/// After a ranking mode has filtered a route it had not filtered before,
/// its cache (of capacity above zero) remembers the offered candidates for
/// the route: asking it again gives them back.
pub proof fn lemma_filter_remembers(
    old: Map<Seq<Seq<char>>, Seq<Seq<char>>>,
    new: Map<Seq<Seq<char>>, Seq<Seq<char>>>,
    capacity: nat,
    key: Seq<Seq<char>>,
    value: Seq<Seq<char>>,
)
    requires
        put_after_miss(old, new, capacity, key, value),
        capacity > 0,
    ensures
        new.contains_key(key),
        new[key] == value,
{
}

/// The cache that remembers what the ranking mode `m` offers.
pub open spec fn table(c: Cache, m: Mode) -> LruCache<Vec<String>, Vec<String>> {
    match m {
        Mode::StrictlyGoalOriented(Weight::Absolute) => c.max_as_facets,
        Mode::Explore(Weight::Absolute) => c.min_as_facets,
        Mode::Explore(Weight::FacetCounting) => c.min_fc_facets,
        _ => c.max_fc_facets,
    }
}

/// Whether the caches of `b` hold what those of `a` hold, except possibly
/// the one of the mode `m`, and have the same capacities.
pub open spec fn same_caches_but(a: Cache, b: Cache, m: Option<Mode>) -> bool {
    &&& lru_capacity(b.max_as_facets) == lru_capacity(a.max_as_facets)
    &&& lru_capacity(b.min_as_facets) == lru_capacity(a.min_as_facets)
    &&& lru_capacity(b.max_fc_facets) == lru_capacity(a.max_fc_facets)
    &&& lru_capacity(b.min_fc_facets) == lru_capacity(a.min_fc_facets)
    &&& (m != Some(Mode::StrictlyGoalOriented(Weight::Absolute)) ==> lru_entries(b.max_as_facets)
        == lru_entries(a.max_as_facets))
    &&& (m != Some(Mode::Explore(Weight::Absolute)) ==> lru_entries(b.min_as_facets) == lru_entries(
        a.min_as_facets,
    ))
    &&& (m != Some(Mode::StrictlyGoalOriented(Weight::FacetCounting)) ==> lru_entries(
        b.max_fc_facets,
    ) == lru_entries(a.max_fc_facets))
    &&& (m != Some(Mode::Explore(Weight::FacetCounting)) ==> lru_entries(b.min_fc_facets)
        == lru_entries(a.min_fc_facets))
}

impl Mode {
    /// The facets remembered for the route in the cache of this ranking mode,
    /// if any; the entries of the caches stay as they are.
    pub fn cached(&self, cache: &mut Cache, route: &Route) -> (r: Option<Vec<String>>)
        ensures
            same_caches_but(*old(cache), *final(cache), None),
            self.ranks() is None ==> r is None,
            self.ranks() is Some ==> (r is Some <==> lru_entries(table(*old(cache), *self)).contains_key(
                route@,
            )),
            r is Some ==> strings_view(r->0@) == lru_entries(table(*old(cache), *self))[route@],
    {
        let key = copy_strings(&route.0);
        match self {
            Mode::StrictlyGoalOriented(Weight::Absolute) => lru_get(&mut cache.max_as_facets, &key),
            Mode::Explore(Weight::Absolute) => lru_get(&mut cache.min_as_facets, &key),
            Mode::StrictlyGoalOriented(Weight::FacetCounting) => lru_get(
                &mut cache.max_fc_facets,
                &key,
            ),
            Mode::Explore(Weight::FacetCounting) => lru_get(&mut cache.min_fc_facets, &key),
            _ => None,
        }
    }

    /// Remembers `value` for the route in the cache of this ranking mode,
    /// which lacks it.
    fn remember(&self, cache: &mut Cache, route: &Route, value: Vec<String>)
        requires
            self.ranks() is Some,
            !lru_entries(table(*old(cache), *self)).contains_key(route@),
        ensures
            same_caches_but(*old(cache), *final(cache), Some(*self)),
            put_after_miss(
                lru_entries(table(*old(cache), *self)),
                lru_entries(table(*final(cache), *self)),
                lru_capacity(table(*old(cache), *self)),
                route@,
                strings_view(value@),
            ),
    {
        let key = copy_strings(&route.0);
        match self {
            Mode::StrictlyGoalOriented(Weight::Absolute) => {
                let _ = lru_put(&mut cache.max_as_facets, key, value);
            },
            Mode::Explore(Weight::Absolute) => {
                let _ = lru_put(&mut cache.min_as_facets, key, value);
            },
            Mode::StrictlyGoalOriented(Weight::FacetCounting) => {
                let _ = lru_put(&mut cache.max_fc_facets, key, value);
            },
            _ => {
                let _ = lru_put(&mut cache.min_fc_facets, key, value);
            },
        }
    }

    /// The candidates that the mode offers for the next step on `route`, from
    /// the weighted candidates `data`: none for a mode that does not rank;
    /// for a ranking mode, what its cache remembers for the route, or else
    /// the candidates of largest (strictly goal-oriented) or smallest
    /// (explore) weight, which its cache then remembers.
    pub fn filter(&self, cache: &mut Cache, route: &Route, data: &[(String, usize)]) -> (r: Vec<
        String,
    >)
        requires
            self.ranks() is Some && !lru_entries(table(*old(cache), *self)).contains_key(
                route@,
            ) ==> data@.len() > 0,
        ensures
            self.ranks() is None ==> r@.len() == 0 && same_caches_but(*old(cache), *final(cache), None),
            self.ranks() is Some && lru_entries(table(*old(cache), *self)).contains_key(route@)
                ==> strings_view(r@) == lru_entries(table(*old(cache), *self))[route@]
                && same_caches_but(*old(cache), *final(cache), None),
            self.ranks() is Some && !lru_entries(table(*old(cache), *self)).contains_key(
                route@,
            ) ==> strings_view(r@) == ranked(pairs_view(data@), self.ranks()->0) && same_caches_but(
                *old(cache),
                *final(cache),
                Some(*self),
            ) && put_after_miss(
                lru_entries(table(*old(cache), *self)),
                lru_entries(table(*final(cache), *self)),
                lru_capacity(table(*old(cache), *self)),
                route@,
                strings_view(r@),
            ),
    {
        match self.ranking() {
            None => Vec::new(),
            Some(maximize) => match self.cached(cache, route) {
                Some(v) => v,
                None => {
                    let fs = rank(data, maximize);
                    let stored = copy_strings(&fs);
                    self.remember(cache, route, stored);
                    fs
                },
            },
        }
    }
}

} // verus!
