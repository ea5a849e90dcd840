//! Routes (the facets activated so far, in order), collections of facets,
//! and conversions between symbols and their written form.
use vstd::prelude::*;

use crate::symbol::{args_view, copy_symbol, push_symbol, show, symbol_eq, Symbol, SymbolView};
use crate::text::{copy_string, push_char, push_str, str_chars};
use crate::text::{all_digits, is_digit, parse_i32_spec};
use crate::translator::{arg_symbol, is_identifier, is_lower, leading_underscores};

verus! {

/// The values of a sequence of strings.
pub open spec fn strings_view(s: Seq<String>) -> Seq<Seq<char>> {
    s.map_values(|x: String| x@)
}

/// `s` with the element at each position of `positions` removed, one after
/// the other (each position counts in the sequence left by the removals
/// before it).
pub open spec fn apply_removals<A>(s: Seq<A>, positions: Seq<usize>) -> Seq<A>
    decreases positions.len(),
{
    if positions.len() == 0 {
        s
    } else {
        apply_removals(s, positions.drop_last()).remove(positions.last() as int)
    }
}

/// Whether each position of `positions` lies within what the removals before
/// it leave of a sequence of length `n`.
pub open spec fn removals_fit(n: nat, positions: Seq<usize>) -> bool {
    forall|k: int| 0 <= k < positions.len() ==> #[trigger] positions[k] < n - k
}

/// The removal of the elements at `positions`, one after the other, when
/// each takes away the first `x` left: `Some` of what remains, `None` when one
/// of them does not.
pub open spec fn first_removals<A>(s: Seq<A>, x: A, positions: Seq<usize>) -> Option<Seq<A>>
    decreases positions.len(),
{
    if positions.len() == 0 {
        Some(s)
    } else {
        match first_removals(s, x, positions.drop_last()) {
            Some(c) => {
                let p = positions.last() as int;
                if p < c.len() && c[p] == x && forall|j: int| 0 <= j < p ==> c[j] != x {
                    Some(c.remove(p))
                } else {
                    None
                }
            },
            None => None,
        }
    }
}

/// The route of a navigation: the facets activated so far, in the order of
/// their activation; `~f` stands for the exclusive facet of `f`.
#[derive(Debug, Clone, PartialEq, Eq)]
pub struct Route(pub Vec<String>);

impl View for Route {
    type V = Seq<Seq<char>>;

    open spec fn view(&self) -> Seq<Seq<char>> {
        strings_view(self.0@)
    }
}

/// The strings of `s` written one after the other.
pub open spec fn concat(s: Seq<Seq<char>>) -> Seq<char>
    decreases s.len(),
{
    if s.len() == 0 {
        Seq::empty()
    } else {
        concat(s.drop_last()) + s.last()
    }
}

/// How a route is displayed: `< f1 f2 ... >`.
pub open spec fn show_route(s: Seq<Seq<char>>) -> Seq<char>
    decreases s.len(),
{
    if s.len() == 0 {
        seq!['<', ' ']
    } else {
        show_route(s.drop_last()) + s.last() + seq![' ']
    }
}

/// A copy of a sequence of strings.
pub fn copy_strings(v: &Vec<String>) -> (r: Vec<String>)
    ensures
        strings_view(r@) == strings_view(v@),
{
    let mut r: Vec<String> = Vec::new();
    let mut i: usize = 0;
    while i < v.len()
        invariant
            i <= v@.len(),
            strings_view(r@) == strings_view(v@.subrange(0, i as int)),
        decreases v@.len() - i,
    {
        r.push(copy_string(&v[i]));
        proof {
            assert(strings_view(v@.subrange(0, i + 1)) =~= strings_view(
                v@.subrange(0, i as int),
            ).push(v@[i as int]@));
        }
        i = i + 1;
    }
    assert(v@.subrange(0, v@.len() as int) =~= v@);
    assert(strings_view(r@) =~= strings_view(v@));
    r
}

/// The first position of `x` in `v`.
fn first_position(v: &Vec<String>, x: &String) -> (r: Option<usize>)
    ensures
        match r {
            Some(p) => p < v@.len() && v@[p as int]@ == x@ && forall|j: int|
                0 <= j < p ==> v@[j]@ != x@,
            None => forall|j: int| 0 <= j < v@.len() ==> v@[j]@ != x@,
        },
{
    let mut i: usize = 0;
    while i < v.len()
        invariant
            i <= v@.len(),
            forall|j: int| 0 <= j < i ==> v@[j]@ != x@,
        decreases v@.len() - i,
    {
        if v[i] == *x {
            return Some(i);
        }
        i = i + 1;
    }
    None
}

proof fn lemma_strings_view_remove(v: Seq<String>, p: int)
    requires
        0 <= p < v.len(),
    ensures
        strings_view(v.remove(p)) == strings_view(v).remove(p),
{
    assert(strings_view(v.remove(p)) =~= strings_view(v).remove(p));
}

proof fn lemma_first_removals_apply<A>(s: Seq<A>, x: A, positions: Seq<usize>)
    requires
        first_removals(s, x, positions) is Some,
    ensures
        apply_removals(s, positions) == first_removals(s, x, positions)->0,
        removals_fit(s.len(), positions),
        first_removals(s, x, positions)->0.len() == s.len() - positions.len(),
        first_removals(s, x, positions)->0.filter(|f: A| f != x) == s.filter(|f: A| f != x),
    decreases positions.len(),
{
    if positions.len() > 0 {
        lemma_first_removals_apply(s, x, positions.drop_last());
        let c = first_removals(s, x, positions.drop_last())->0;
        let p = positions.last() as int;
        lemma_remove_keeps_filter(c, x, p);
        assert forall|k: int| 0 <= k < positions.len() implies #[trigger] positions[k] < s.len() - k by {
            if k < positions.len() - 1 {
                assert(positions.drop_last()[k] == positions[k]);
            }
        }
    }
}

/// Taking away an `x` does not change what is left when all `x` are taken away.
proof fn lemma_remove_keeps_filter<A>(c: Seq<A>, x: A, p: int)
    requires
        0 <= p < c.len(),
        c[p] == x,
    ensures
        c.remove(p).filter(|f: A| f != x) == c.filter(|f: A| f != x),
{
    let keep = |f: A| f != x;
    assert(c =~= c.take(p) + seq![x] + c.skip(p + 1));
    assert(c.remove(p) =~= c.take(p) + c.skip(p + 1));
    Seq::filter_distributes_over_add(c.take(p) + seq![x], c.skip(p + 1), keep);
    Seq::filter_distributes_over_add(c.take(p), seq![x], keep);
    Seq::filter_distributes_over_add(c.take(p), c.skip(p + 1), keep);
    reveal_with_fuel(Seq::filter, 2);
    assert(seq![x].filter(keep) =~= Seq::<A>::empty()) by {
        assert(seq![x].drop_last() =~= Seq::<A>::empty());
    }
    assert(c.take(p) + seq![x] + c.skip(p + 1) == c);
}

/// A sequence without `x` is what is left of it when all `x` are taken away.
proof fn lemma_filter_without<A>(c: Seq<A>, x: A)
    requires
        !c.contains(x),
    ensures
        c.filter(|f: A| f != x) == c,
    decreases c.len(),
{
    reveal_with_fuel(Seq::filter, 1);
    if c.len() > 0 {
        assert(!c.drop_last().contains(x)) by {
            if c.drop_last().contains(x) {
                let j = choose|j: int| 0 <= j < c.drop_last().len() && c.drop_last()[j] == x;
                assert(c[j] == x);
            }
        }
        lemma_filter_without(c.drop_last(), x);
        assert(c.drop_last().push(c.last()) =~= c);
    } else {
        assert(c.filter(|f: A| f != x) =~= c);
    }
}

/// The opposite of a facet's written form: `f` for `~f`, `~f` for `f`.
pub open spec fn opposite(f: Seq<char>) -> Seq<char> {
    if f.len() > 0 && f[0] == '~' {
        f.drop_first()
    } else {
        seq!['~'] + f
    }
}

/// The opposite of a facet: its exclusive form, or the inclusive facet of
/// an exclusive one.
pub fn opposite_facet(facet: &str) -> (r: String)
    ensures
        r@ == opposite(facet@),
{
    let v = str_chars(facet);
    if v.len() > 0 && v[0] == '~' {
        let r = crate::text::subrange_to_string(v.as_slice(), 1, v.len());
        assert(v@.subrange(1, v@.len() as int) =~= facet@.drop_first());
        r
    } else {
        let mut r = String::new();
        push_char(&mut r, '~');
        push_str(&mut r, facet);
        assert(r@ =~= seq!['~'] + facet@);
        r
    }
}

/// Going to the opposite facet twice comes back, for a facet written with
/// at most one leading `~`.
pub proof fn lemma_opposite_twice(f: Seq<char>)
    requires
        !(f.len() > 1 && f[0] == '~' && f[1] == '~'),
    ensures
        opposite(opposite(f)) == f,
{
    if f.len() > 0 && f[0] == '~' {
        assert(seq!['~'] + f.drop_first() =~= f);
    } else {
        assert((seq!['~'] + f).drop_first() =~= f);
    }
}

/// Activating a facet that is not on a route and deactivating it again
/// gives the route back: `deactivate_first` finds its first occurrence at
/// the end, and removing it there leaves the route.
pub proof fn lemma_activate_then_deactivate_route(route: Seq<Seq<char>>, facet: Seq<char>)
    requires
        !route.contains(facet),
    ensures
        route.push(facet)[route.len() as int] == facet,
        forall|j: int| 0 <= j < route.len() ==> #[trigger] route.push(facet)[j] != facet,
        route.push(facet).remove(route.len() as int) == route,
{
    let s = route.push(facet);
    assert forall|j: int| 0 <= j < route.len() implies #[trigger] s[j] != facet by {
        assert(s[j] == route[j]);
        if route[j] == facet {
            assert(route.contains(facet));
        }
    }
    assert(s.remove(route.len() as int) =~= route);
}

impl Route {
    /// Appends `facet` to the route.
    pub fn activate(&mut self, facet: String)
        ensures
            final(self)@ == old(self)@.push(facet@),
    {
        self.0.push(facet);
        assert(strings_view(self.0@) =~= strings_view(old(self).0@).push(facet@));
    }

    /// The facets of the route, in order.
    pub fn iter(&self) -> (r: std::slice::Iter<'_, String>)
        ensures
            vstd::std_specs::iter::IteratorSpec::remaining(&r) == self.0@.as_ref(),
    {
        proof {
            broadcast use vstd::std_specs::slice::group_slice_axioms;
        }
        self.0.iter()
    }

    /// Removes the facet at `position`.
    pub fn deactivate_first_by_position(&mut self, position: usize)
        requires
            position < old(self)@.len(),
        ensures
            final(self)@ == old(self)@.remove(position as int),
    {
        self.0.remove(position);
        proof {
            lemma_strings_view_remove(old(self).0@, position as int);
        }
    }

    /// Removes the first occurrence of `facet` and tells where it stood;
    /// `None`, and the route unchanged, when the route does not hold it.
    pub fn deactivate_first(&mut self, facet: String) -> (r: Option<usize>)
        ensures
            match r {
                Some(p) => p < old(self)@.len() && old(self)@[p as int] == facet@ && (forall|j: int|
                    0 <= j < p ==> old(self)@[j] != facet@) && final(self)@ == old(self)@.remove(
                    p as int,
                ),
                None => !old(self)@.contains(facet@) && final(self)@ == old(self)@,
            },
    {
        match first_position(&self.0, &facet) {
            Some(pos) => {
                self.0.remove(pos);
                proof {
                    lemma_strings_view_remove(old(self).0@, pos as int);
                }
                Some(pos)
            },
            None => {
                proof {
                    if old(self)@.contains(facet@) {
                        let j = choose|j: int| 0 <= j < old(self)@.len() && old(self)@[j] == facet@;
                        assert(old(self).0@[j]@ == facet@);
                    }
                }
                None
            },
        }
    }

    /// Removes every occurrence of `facet`, one after the other, each time the
    /// first one left; returns the positions of these removals.
    pub fn deactivate_any(&mut self, facet: String) -> (r: Vec<usize>)
        ensures
            first_removals(old(self)@, facet@, r@) == Some(final(self)@),
            !final(self)@.contains(facet@),
            final(self)@ == old(self)@.filter(|f: Seq<char>| f != facet@),
            removals_fit(old(self)@.len(), r@),
            apply_removals(old(self)@, r@) == final(self)@,
            r@.len() == old(self)@.filter(|f: Seq<char>| f == facet@).len(),
    {
        let ghost s0 = old(self)@;
        let ghost x = facet@;
        let mut poss: Vec<usize> = Vec::new();
        loop
            invariant_except_break
                first_removals(s0, x, poss@) == Some(self@),
                self@.len() + poss@.len() == s0.len(),
                x == facet@,
            ensures
                first_removals(s0, x, poss@) == Some(self@),
                !self@.contains(x),
                self@.len() + poss@.len() == s0.len(),
            decreases self@.len(),
        {
            let ghost before = self@;
            match first_position(&self.0, &facet) {
                Some(pos) => {
                    let ghost prev = poss@;
                    assert(before[pos as int] == x);
                    self.0.remove(pos);
                    proof {
                        lemma_strings_view_remove(self.0@.insert(pos as int, facet), pos as int);
                        assert(self@ =~= before.remove(pos as int));
                    }
                    poss.push(pos);
                    proof {
                        assert(poss@.drop_last() =~= prev);
                        assert(forall|j: int| 0 <= j < pos ==> before[j] != x);
                        assert(poss@.last() == pos);
                    }
                },
                None => {
                    proof {
                        if self@.contains(x) {
                            let j = choose|j: int| 0 <= j < self@.len() && self@[j] == x;
                            assert(self.0@[j]@ == x);
                        }
                    }
                    break;
                },
            }
        }
        proof {
            lemma_first_removals_apply(s0, x, poss@);
            lemma_filter_without(self@, x);
            lemma_filter_split_len(s0, x);
            assert((|f: Seq<char>| f == facet@) =~= (|f: Seq<char>| f == x));
            assert((|f: Seq<char>| f != facet@) =~= (|f: Seq<char>| f != x));
            assert(self@ == s0.filter(|f: Seq<char>| f != x));
        }
        poss
    }

    /// The route with `facet` appended, the route itself unchanged.
    pub fn peek_step(&self, facet: &str) -> (r: Route)
        ensures
            r@ == self@.push(facet@),
    {
        let mut route = Route(copy_strings(&self.0));
        let mut s = String::new();
        push_str(&mut s, facet);
        assert(s@ =~= facet@);
        route.activate(s);
        route
    }

    /// The route with `facets` appended, the route itself unchanged.
    pub fn peek_steps(&self, facets: &[&str]) -> (r: Route)
        ensures
            r@ == self@ + facets@.map_values(|f: &str| f@),
    {
        let mut route = Route(copy_strings(&self.0));
        let mut i: usize = 0;
        while i < facets.len()
            invariant
                i <= facets@.len(),
                route@ == self@ + facets@.subrange(0, i as int).map_values(|f: &str| f@),
            decreases facets@.len() - i,
        {
            let mut s = String::new();
            push_str(&mut s, facets[i]);
            assert(s@ =~= facets@[i as int]@);
            route.activate(s);
            assert(facets@.subrange(0, i + 1).map_values(|f: &str| f@) =~= facets@.subrange(
                0,
                i as int,
            ).map_values(|f: &str| f@).push(facets@[i as int]@));
            i = i + 1;
        }
        assert(facets@.subrange(0, facets@.len() as int) =~= facets@);
        route
    }

    /// Whether the route holds `facet`.
    pub fn contains(&self, facet: &str) -> (r: bool)
        ensures
            r == self@.contains(facet@),
    {
        let mut s = String::new();
        push_str(&mut s, facet);
        assert(s@ =~= facet@);
        match first_position(&self.0, &s) {
            Some(p) => {
                assert(self@[p as int] == facet@);
                true
            },
            None => {
                proof {
                    if self@.contains(facet@) {
                        let j = choose|j: int| 0 <= j < self@.len() && self@[j] == facet@;
                        assert(self.0@[j]@ == facet@);
                    }
                }
                false
            },
        }
    }

    /// Number of facets on the route.
    pub fn len(&self) -> (r: usize)
        ensures
            r == self@.len(),
    {
        self.0.len()
    }

    /// The facets of the route written one after the other; this string names
    /// the route in the cache of filtered facets.
    pub fn concat(&self) -> (r: String)
        ensures
            r@ == concat(self@),
    {
        let mut s = String::new();
        let mut i: usize = 0;
        while i < self.0.len()
            invariant
                i <= self@.len(),
                s@ == concat(self@.subrange(0, i as int)),
            decreases self@.len() - i,
        {
            push_str(&mut s, self.0[i].as_str());
            assert(self@.subrange(0, i + 1).drop_last() =~= self@.subrange(0, i as int));
            i = i + 1;
        }
        assert(self@.subrange(0, self@.len() as int) =~= self@);
        s
    }

    /// How the route is displayed: `< f1 f2 ... >`.
    pub fn render(&self) -> (r: String)
        ensures
            r@ == show_route(self@) + seq!['>'],
    {
        let mut s = String::new();
        push_char(&mut s, '<');
        push_char(&mut s, ' ');
        assert(s@ =~= show_route(self@.subrange(0, 0)));
        let mut i: usize = 0;
        while i < self.0.len()
            invariant
                i <= self@.len(),
                s@ == show_route(self@.subrange(0, i as int)),
            decreases self@.len() - i,
        {
            push_str(&mut s, self.0[i].as_str());
            push_char(&mut s, ' ');
            assert(self@.subrange(0, i + 1).drop_last() =~= self@.subrange(0, i as int));
            i = i + 1;
        }
        assert(self@.subrange(0, self@.len() as int) =~= self@);
        push_char(&mut s, '>');
        s
    }
}

impl From<Route> for String {
    /// The facets of the route written one after the other.
    fn from(route: Route) -> (r: String)
        ensures
            r@ == concat(route@),
    {
        route.concat()
    }
}

impl vstd::std_specs::convert::FromSpecImpl<Route> for String {
    open spec fn obeys_from_spec() -> bool {
        false
    }

    open spec fn from_spec(route: Route) -> String {
        choose|s: String| s@ == concat(route@)
    }
}

/// A collection of facets: atoms that hold in some but not all answer sets
/// under the current route.
#[derive(Debug, PartialEq, Eq)]
pub struct Facets(pub Vec<Symbol>);

impl View for Facets {
    type V = Seq<SymbolView>;

    open spec fn view(&self) -> Seq<SymbolView> {
        args_view(self.0@)
    }
}

/// How facets are displayed: each facet `f` as `f ~f `, six to a line.
pub open spec fn show_facets(s: Seq<SymbolView>) -> Seq<char>
    decreases s.len(),
{
    if s.len() == 0 {
        Seq::empty()
    } else {
        let f = s.last();
        show_facets(s.drop_last()) + (if (s.len() - 1) % 6 == 0 {
            seq!['\n']
        } else {
            Seq::<char>::empty()
        }) + show(f) + seq![' ', '~'] + show(f) + seq![' ']
    }
}

impl Facets {
    /// The written forms of the facets, in order.
    pub fn to_strings(&self) -> (r: Vec<String>)
        ensures
            strings_view(r@) == self@.map_values(|f: SymbolView| show(f)),
    {
        let mut r: Vec<String> = Vec::new();
        let mut i: usize = 0;
        while i < self.0.len()
            invariant
                i <= self@.len(),
                self@.len() == self.0@.len(),
                strings_view(r@) == self@.subrange(0, i as int).map_values(|f: SymbolView| show(f)),
            decreases self@.len() - i,
        {
            let t = crate::symbol::symbol_to_string(&self.0[i]);
            r.push(t);
            assert(self@.subrange(0, i + 1).map_values(|f: SymbolView| show(f)) =~= self@.subrange(
                0,
                i as int,
            ).map_values(|f: SymbolView| show(f)).push(show(self@[i as int])));
            assert(strings_view(r@) =~= strings_view(r@.drop_last()).push(t@));
            i = i + 1;
        }
        assert(self@.subrange(0, self@.len() as int) =~= self@);
        r
    }

    /// The facets, in order.
    pub fn iter(&self) -> (r: std::slice::Iter<'_, Symbol>)
        ensures
            vstd::std_specs::iter::IteratorSpec::remaining(&r) == self.0@.as_ref(),
    {
        proof {
            broadcast use vstd::std_specs::slice::group_slice_axioms;
        }
        self.0.iter()
    }

    /// Whether there is no facet.
    pub fn is_empty(&self) -> (r: bool)
        ensures
            r == (self@.len() == 0),
    {
        self.0.len() == 0
    }

    /// Number of facets.
    pub fn len(&self) -> (r: usize)
        ensures
            r == self@.len(),
    {
        self.0.len()
    }

    /// How the facets are displayed: each facet `f` as `f ~f `, six to a
    /// line, and a line feed at the end.
    pub fn render(&self) -> (r: String)
        ensures
            r@ == show_facets(self@) + seq!['\n'],
    {
        let mut s = String::new();
        let mut i: usize = 0;
        while i < self.0.len()
            invariant
                i <= self@.len(),
                self@.len() == self.0@.len(),
                s@ == show_facets(self@.subrange(0, i as int)),
            decreases self@.len() - i,
        {
            let ghost before = s@;
            if i % 6 == 0 {
                push_char(&mut s, '\n');
            }
            push_symbol(&mut s, &self.0[i]);
            push_char(&mut s, ' ');
            push_char(&mut s, '~');
            push_symbol(&mut s, &self.0[i]);
            push_char(&mut s, ' ');
            proof {
                let p = self@.subrange(0, i + 1);
                assert(p.drop_last() =~= self@.subrange(0, i as int));
                assert(p.last() == self@[i as int]);
                assert(s@ =~= show_facets(p));
            }
            i = i + 1;
        }
        assert(self@.subrange(0, self@.len() as int) =~= self@);
        push_char(&mut s, '\n');
        s
    }
}

/// Symbols and their written form.
pub trait Repr {
    /// The written form.
    spec fn repr_spec(&self) -> Seq<char>;

    /// The written form, `f` for the inclusive facet `f`.
    fn repr(&self) -> (r: String)
        ensures
            r@ == self.repr_spec(),
    ;

    /// The written form of the exclusive facet, `~f`.
    fn exclusive_repr(&self) -> (r: String)
        ensures
            r@ == seq!['~'] + self.repr_spec(),
    ;
}

impl Repr for Symbol {
    open spec fn repr_spec(&self) -> Seq<char> {
        show(self@)
    }

    fn repr(&self) -> (r: String) {
        crate::symbol::symbol_to_string(self)
    }

    fn exclusive_repr(&self) -> (r: String) {
        let mut s = String::new();
        push_char(&mut s, '~');
        push_symbol(&mut s, self);
        assert(s@ =~= seq!['~'] + show(self@));
        s
    }
}

/// The constant that a text names: `-c` the negated constant `c`, anything
/// else the constant of that name.
pub open spec fn text_symbol(t: Seq<char>) -> SymbolView {
    if t.len() > 0 && t[0] == '-' {
        SymbolView::Function(t.drop_first(), Seq::empty(), false)
    } else {
        SymbolView::Function(t, Seq::empty(), true)
    }
}

/// Texts that name constants.
pub trait ToSymbol {
    /// The text.
    spec fn text(&self) -> Seq<char>;

    /// The constant the text names; a leading `-` negates it.
    fn symbol(&self) -> (r: Symbol)
        ensures
            r@ == text_symbol(self.text()),
    ;

    /// The negated constant of the text's name.
    fn as_negative_symbol(&self) -> (r: Symbol)
        ensures
            r@ == SymbolView::Function(self.text(), Seq::empty(), false),
    ;
}

impl ToSymbol for str {
    open spec fn text(&self) -> Seq<char> {
        self@
    }

    fn symbol(&self) -> (r: Symbol) {
        let v = str_chars(self);
        if v.len() > 0 && v[0] == '-' {
            let rest = crate::text::subrange_to_string(v.as_slice(), 1, v.len());
            let r = Symbol::create_id(rest.as_str(), false);
            assert(v@.subrange(1, v@.len() as int) =~= self@.drop_first());
            r
        } else {
            Symbol::create_id(self, true)
        }
    }

    fn as_negative_symbol(&self) -> (r: Symbol) {
        Symbol::create_id(self, false)
    }
}

impl ToSymbol for String {
    open spec fn text(&self) -> Seq<char> {
        self@
    }

    fn symbol(&self) -> (r: Symbol) {
        self.as_str().symbol()
    }

    fn as_negative_symbol(&self) -> (r: Symbol) {
        self.as_str().as_negative_symbol()
    }
}

/// The values of the elements of `s`.
pub open spec fn views<T: View>(s: Seq<T>) -> Seq<T::V> {
    s.map_values(|x: T| x@)
}

/// Collections whose elements are gathered without repetition; the result
/// stands for a set, each element once, in no order that callers may rely on.
pub trait ToHashSet<T: View> {
    /// The values of the elements of the collection, in order.
    spec fn items(&self) -> Seq<T::V>;

    /// The elements of the collection, each once.
    fn to_hashset(&self) -> (r: Vec<T>)
        ensures
            views(r@).no_duplicates(),
            views(r@).to_set() == self.items().to_set(),
    ;

    /// The elements of the collection that `other` does not hold, each once.
    fn difference(&self, other: &[T]) -> (r: Vec<T>)
        ensures
            views(r@).no_duplicates(),
            views(r@).to_set() == self.items().to_set().difference(views(other@).to_set()),
    ;
}

/// Whether a symbol with the value of `x` is among `v`.
pub(crate) fn symbols_contain(v: &[Symbol], x: &Symbol) -> (r: bool)
    ensures
        r == views(v@).contains(x@),
{
    let mut i: usize = 0;
    while i < v.len()
        invariant
            i <= v@.len(),
            forall|j: int| 0 <= j < i ==> v@[j]@ != x@,
        decreases v@.len() - i,
    {
        if symbol_eq(&v[i], x) {
            assert(views(v@)[i as int] == x@);
            return true;
        }
        i = i + 1;
    }
    proof {
        if views(v@).contains(x@) {
            let j = choose|j: int| 0 <= j < views(v@).len() && views(v@)[j] == x@;
            assert(v@[j]@ == x@);
        }
    }
    false
}

/// Whether a string with the characters of `x` is among `v`.
pub(crate) fn strings_contain(v: &[String], x: &String) -> (r: bool)
    ensures
        r == views(v@).contains(x@),
{
    let mut i: usize = 0;
    while i < v.len()
        invariant
            i <= v@.len(),
            forall|j: int| 0 <= j < i ==> v@[j]@ != x@,
        decreases v@.len() - i,
    {
        if v[i] == *x {
            assert(views(v@)[i as int] == x@);
            return true;
        }
        i = i + 1;
    }
    proof {
        if views(v@).contains(x@) {
            let j = choose|j: int| 0 <= j < views(v@).len() && views(v@)[j] == x@;
            assert(v@[j]@ == x@);
        }
    }
    false
}

proof fn lemma_views_push<T: View>(s: Seq<T>, x: T)
    ensures
        views(s.push(x)) == views(s).push(x@),
        views(s.push(x)).to_set() == views(s).to_set().insert(x@),
{
    assert(views(s.push(x)) =~= views(s).push(x@));
    assert(views(s).to_set().insert(x@) =~= views(s).push(x@).to_set()) by {
        assert forall|y| views(s).push(x@).to_set().contains(y) <==> views(s).to_set().insert(x@).contains(y) by {
            if views(s).push(x@).contains(y) {
                let j = choose|j: int| 0 <= j < views(s).push(x@).len() && views(s).push(x@)[j] == y;
                if j < views(s).len() {
                    assert(views(s)[j] == y);
                }
            }
            if views(s).contains(y) {
                let j = choose|j: int| 0 <= j < views(s).len() && views(s)[j] == y;
                assert(views(s).push(x@)[j] == y);
            }
            if y == x@ {
                assert(views(s).push(x@)[views(s).len() as int] == y);
            }
        }
    }
}

impl ToHashSet<Symbol> for Vec<Symbol> {
    open spec fn items(&self) -> Seq<SymbolView> {
        views(self@)
    }

    fn to_hashset(&self) -> (r: Vec<Symbol>) {
        let other: Vec<Symbol> = Vec::new();
        let r = self.difference(other.as_slice());
        assert(views(other@).to_set() =~= Set::<SymbolView>::empty());
        assert(self.items().to_set().difference(Set::<SymbolView>::empty()) =~= self.items().to_set());
        r
    }

    fn difference(&self, other: &[Symbol]) -> (r: Vec<Symbol>) {
        let mut r: Vec<Symbol> = Vec::new();
        let mut i: usize = 0;
        let ghost o = views(other@).to_set();
        while i < self.len()
            invariant
                i <= self@.len(),
                o == views(other@).to_set(),
                views(r@).no_duplicates(),
                views(r@).to_set() == views(self@.subrange(0, i as int)).to_set().difference(o),
            decreases self@.len() - i,
        {
            let ghost before = views(r@);
            assert(views(self@.subrange(0, i + 1)) =~= views(self@.subrange(0, i as int)).push(self@[i as int]@));
            proof {
                lemma_views_push(self@.subrange(0, i as int), self@[i as int]);
                assert(self@.subrange(0, i + 1) =~= self@.subrange(0, i as int).push(self@[i as int]));
            }
            let ghost old_r = r@;
            if !symbols_contain(other, &self[i]) && !symbols_contain(r.as_slice(), &self[i]) {
                let c = copy_symbol(&self[i]);
                r.push(c);
                proof {
                    assert(r@ == old_r.push(c));
                    lemma_views_push(old_r, c);
                    let y = c@;
                    assert(!views(old_r).contains(y));
                    assert forall|a: int, b: int| 0 <= a < b < views(r@).len() implies views(r@)[a] != views(r@)[b] by {
                        if b == views(r@).len() - 1 {
                            assert(views(r@)[a] == views(old_r)[a]);
                        } else {
                            assert(views(r@)[a] == views(old_r)[a]);
                            assert(views(r@)[b] == views(old_r)[b]);
                        }
                    }
                    assert(views(r@).to_set() =~= views(self@.subrange(0, i + 1)).to_set().difference(o));
                }
            } else {
                assert(views(r@).to_set() =~= views(self@.subrange(0, i + 1)).to_set().difference(o));
            }
            i = i + 1;
        }
        assert(self@.subrange(0, self@.len() as int) =~= self@);
        r
    }
}

impl ToHashSet<String> for Vec<String> {
    open spec fn items(&self) -> Seq<Seq<char>> {
        views(self@)
    }

    fn to_hashset(&self) -> (r: Vec<String>) {
        let other: Vec<String> = Vec::new();
        let r = self.difference(other.as_slice());
        assert(views(other@).to_set() =~= Set::<Seq<char>>::empty());
        assert(self.items().to_set().difference(Set::<Seq<char>>::empty()) =~= self.items().to_set());
        r
    }

    fn difference(&self, other: &[String]) -> (r: Vec<String>) {
        let mut r: Vec<String> = Vec::new();
        let mut i: usize = 0;
        let ghost o = views(other@).to_set();
        while i < self.len()
            invariant
                i <= self@.len(),
                o == views(other@).to_set(),
                views(r@).no_duplicates(),
                views(r@).to_set() == views(self@.subrange(0, i as int)).to_set().difference(o),
            decreases self@.len() - i,
        {
            assert(views(self@.subrange(0, i + 1)) =~= views(self@.subrange(0, i as int)).push(self@[i as int]@));
            proof {
                lemma_views_push(self@.subrange(0, i as int), self@[i as int]);
                assert(self@.subrange(0, i + 1) =~= self@.subrange(0, i as int).push(self@[i as int]));
            }
            let ghost old_r = r@;
            if !strings_contain(other, &self[i]) && !strings_contain(r.as_slice(), &self[i]) {
                let c = copy_string(&self[i]);
                r.push(c);
                proof {
                    assert(r@ == old_r.push(c));
                    lemma_views_push(old_r, c);
                    let y = c@;
                    assert(!views(old_r).contains(y));
                    assert forall|a: int, b: int| 0 <= a < b < views(r@).len() implies views(r@)[a] != views(r@)[b] by {
                        if b == views(r@).len() - 1 {
                            assert(views(r@)[a] == views(old_r)[a]);
                        } else {
                            assert(views(r@)[a] == views(old_r)[a]);
                            assert(views(r@)[b] == views(old_r)[b]);
                        }
                    }
                    assert(views(r@).to_set() =~= views(self@.subrange(0, i + 1)).to_set().difference(o));
                }
            } else {
                assert(views(r@).to_set() =~= views(self@.subrange(0, i + 1)).to_set().difference(o));
            }
            i = i + 1;
        }
        assert(self@.subrange(0, self@.len() as int) =~= self@);
        r
    }
}

/// The occurrences of `x` and the other entries together make up the whole
/// sequence.
proof fn lemma_filter_split_len(s: Seq<Seq<char>>, x: Seq<char>)
    ensures
        s.filter(|f: Seq<char>| f == x).len() + s.filter(|f: Seq<char>| f != x).len() == s.len(),
    decreases s.len(),
{
    let p = |f: Seq<char>| f == x;
    let q = |f: Seq<char>| f != x;
    if s.len() > 0 {
        lemma_filter_split_len(s.drop_last(), x);
        assert(s.drop_last().push(s.last()) =~= s);
        crate::navigator::lemma_filter_push(s.drop_last(), s.last(), p);
        crate::navigator::lemma_filter_push(s.drop_last(), s.last(), q);
    } else {
        assert(s.filter(p) =~= Seq::<Seq<char>>::empty()) by {
            reveal_with_fuel(Seq::filter, 1);
        }
        assert(s.filter(q) =~= Seq::<Seq<char>>::empty()) by {
            reveal_with_fuel(Seq::filter, 1);
        }
    }
}

/// A constant argument reads as the constant of its name, and one written
/// with a leading `-` as its classical negation; either is written back as
/// it was read.
pub proof fn lemma_constant_argument(c: Seq<char>)
    requires
        is_identifier(c),
    ensures
        arg_symbol(c) == SymbolView::Function(c, Seq::empty(), true),
        arg_symbol(seq!['-'] + c) == SymbolView::Function(c, Seq::empty(), false),
        show(arg_symbol(c)) == c,
        show(arg_symbol(seq!['-'] + c)) == seq!['-'] + c,
{
    let k = leading_underscores(c);
    lemma_identifier_start(c);
    assert(!is_digit(c[k as int]));
    assert(!all_digits(c));
    assert(c[0] != '-' && c[0] != '+' && c[0] != '"');
    let n = seq!['-'] + c;
    assert(n.drop_first() =~= c);
    assert(parse_i32_spec(c) is None);
}

/// The first character of an identifier is an underscore or a lower-case
/// letter, and some character of it is a lower-case letter.
proof fn lemma_identifier_start(c: Seq<char>)
    requires
        is_identifier(c),
    ensures
        c[0] == '_' || is_lower(c[0]),
        is_lower(c[leading_underscores(c) as int]),
    decreases c.len(),
{
    if c[0] == '_' {
    } else {
        assert(leading_underscores(c) == 0);
    }
}

} // verus!
