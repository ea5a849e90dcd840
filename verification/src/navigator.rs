//! The state of a navigation through the answer sets of a logic program and
//! the decisions taken on it. The answer set solver itself stands outside the
//! library: what it computes (satisfiability, brave and cautious consequences,
//! numbers of answer sets) comes in as arguments.
use vstd::prelude::*;

use crate::symbol::{args_view, copy_symbol, show, Symbol, SymbolView};
use crate::text::{copy_string, push_char, push_str, str_chars, trim};
use crate::translator::{parse_atom, Atom};
use crate::utils::{
    apply_removals, first_removals, removals_fit, strings_view, views, Facets, Repr, Route,
    ToHashSet,
};

verus! {

/// How the weight of a facet is measured.
#[derive(Debug, Clone, Copy, PartialEq, Eq, Structural)]
pub enum Weight {
    /// By the number of answer sets a step rules out.
    Absolute,
    /// By the number of facets a step rules out.
    FacetCounting,
    /// By the information a step gives.
    Information,
}

/// A navigation mode: which facets are offered for the next step, with a
/// weight; `Io` selects a numbered interactive mode.
#[derive(Debug, Clone, Copy, PartialEq, Eq, Structural)]
pub enum Mode {
    /// All facets.
    GoalOriented(Weight),
    /// The facets of largest weight.
    StrictlyGoalOriented(Weight),
    /// The facets of smallest weight.
    Explore(Weight),
    /// A numbered interactive mode.
    Io(u8),
}

/// The name of a weight.
pub open spec fn weight_name(w: Weight) -> Seq<char> {
    match w {
        Weight::Absolute => "absolute"@,
        Weight::FacetCounting => "facet-counting"@,
        Weight::Information => "information"@,
    }
}

/// How a mode is displayed, such as `facet-counting goal-oriented mode`.
pub open spec fn mode_name(m: Mode) -> Seq<char> {
    match m {
        Mode::GoalOriented(w) => weight_name(w) + " goal-oriented mode"@,
        Mode::StrictlyGoalOriented(w) => weight_name(w) + " strictly-goal-oriented mode"@,
        Mode::Explore(w) => weight_name(w) + " explore mode"@,
        Mode::Io(n) => "io mode "@ + crate::text::decimal(n as nat),
    }
}

impl Weight {
    /// The name of the weight.
    pub fn name(&self) -> (r: String)
        ensures
            r@ == weight_name(*self),
    {
        match self {
            Weight::Absolute => String::from_str("absolute"),
            Weight::FacetCounting => String::from_str("facet-counting"),
            Weight::Information => String::from_str("information"),
        }
    }

    /// The weights of a step and of its opposite, from the measure before
    /// the step (`before`: the number of current facets, or of answer sets)
    /// and after it (`after`). Facet counting counts each ruled-out facet
    /// twice, once inclusive and once exclusive, and gives no opposite weight;
    /// the absolute weight is the number of answer sets ruled out, and the
    /// opposite step rules out the `after` ones that the step keeps.
    pub fn weigh(&self, before: usize, after: usize) -> (r: (usize, Option<usize>))
        requires
            *self != Weight::Information,
            after <= before,
            *self == Weight::FacetCounting ==> (before - after) * 2 <= usize::MAX,
        ensures
            *self == Weight::FacetCounting ==> r == ((2 * (before - after)) as usize, None::<usize>),
            *self == Weight::Absolute ==> r == ((before - after) as usize, Some(after)),
    {
        match self {
            Weight::Absolute => {
                let weight = before - after;
                (weight, Some(before - weight))
            },
            _ => ((before - after) * 2, None),
        }
    }
}

impl Mode {
    /// How the mode is displayed.
    pub fn describe(&self) -> (r: String)
        ensures
            r@ == mode_name(*self),
    {
        match self {
            Mode::GoalOriented(w) => {
                let mut s = w.name();
                push_str(&mut s, " goal-oriented mode");
                s
            },
            Mode::StrictlyGoalOriented(w) => {
                let mut s = w.name();
                push_str(&mut s, " strictly-goal-oriented mode");
                s
            },
            Mode::Explore(w) => {
                let mut s = w.name();
                push_str(&mut s, " explore mode");
                s
            },
            Mode::Io(n) => {
                let mut s = String::from_str("io mode ");
                crate::text::push_decimal(&mut s, *n as u64);
                s
            },
        }
    }
}

/// Which consequences the solver is asked for.
#[derive(Debug, Clone, Copy, PartialEq, Eq, Structural)]
pub enum EnumMode {
    /// Atoms in some answer set.
    Brave,
    /// Atoms in every answer set.
    Cautious,
}

impl EnumMode {
    /// The name of the enumeration mode as the solver's configuration knows
    /// it.
    pub fn as_str(&self) -> (r: &'static str)
        ensures
            *self == EnumMode::Brave ==> r@ == "brave"@,
            *self == EnumMode::Cautious ==> r@ == "cautious"@,
    {
        match self {
            EnumMode::Brave => "brave",
            EnumMode::Cautious => "cautious",
        }
    }
}

/// What can go wrong in a navigation.
#[derive(Debug, Clone, PartialEq, Eq)]
pub enum NavigatorError {
    /// An expected value was missing (`None` where a value was needed).
    NoneValue,
    /// The text does not name an atom of the program.
    InvalidInput(String),
}

/// The solver literal of the atom `k`: the last entry for it in the table.
pub open spec fn lookup(table: Seq<(Symbol, i32)>, k: SymbolView) -> Option<i32>
    decreases table.len(),
{
    if table.len() == 0 {
        None
    } else if table.last().0@ == k {
        Some(table.last().1)
    } else {
        lookup(table.drop_last(), k)
    }
}

/// The solver literal that a facet text stands for: `a` the literal of the
/// atom `a`, `~a` its negation, when the program has the atom.
pub open spec fn literal_of(table: Seq<(Symbol, i32)>, s: Seq<char>) -> Option<i32> {
    if s.len() > 0 && s[0] == '~' {
        match parse_atom(s.drop_first(), seq!['~']) {
            Some(sym) => match lookup(table, sym) {
                Some(l) => Some(-l as i32),
                None => None,
            },
            None => None,
        }
    } else {
        match parse_atom(s, seq!['~']) {
            Some(sym) => lookup(table, sym),
            None => None,
        }
    }
}

/// The literals of the texts that stand for one, in order.
pub open spec fn literals_of(table: Seq<(Symbol, i32)>, s: Seq<Seq<char>>) -> Seq<i32>
    decreases s.len(),
{
    if s.len() == 0 {
        Seq::empty()
    } else {
        literals_of(table, s.drop_last()) + match literal_of(table, s.last()) {
            Some(l) => seq![l],
            None => Seq::empty(),
        }
    }
}

/// The texts that stand for a literal, in order.
pub open spec fn known(table: Seq<(Symbol, i32)>, s: Seq<Seq<char>>) -> Seq<Seq<char>> {
    s.filter(|t: Seq<char>| literal_of(table, t) is Some)
}

/// The texts that stand for no literal, in order.
pub open spec fn unknown(table: Seq<(Symbol, i32)>, s: Seq<Seq<char>>) -> Seq<Seq<char>> {
    s.filter(|t: Seq<char>| literal_of(table, t) is None)
}

/// The facets that hold in some answer set (`brave`) but not in all
/// (`cautious`): the brave consequences as they are when there are no
/// cautious ones, otherwise those that are not cautious, each once.
pub open spec fn is_inclusive_facets(r: Seq<SymbolView>, brave: Seq<SymbolView>, cautious: Seq<
    SymbolView,
>) -> bool {
    if cautious.len() == 0 {
        r == brave
    } else {
        r.no_duplicates() && r.to_set() == brave.to_set().difference(cautious.to_set())
    }
}

/// The inclusive facets from the brave and the cautious consequences.
pub fn inclusive_facets(brave: Vec<Symbol>, cautious: Vec<Symbol>) -> (r: Facets)
    ensures
        is_inclusive_facets(r@, args_view(brave@), args_view(cautious@)),
{
    if cautious.len() == 0 {
        Facets(brave)
    } else {
        let d = brave.difference(cautious.as_slice());
        proof {
            assert(views(d@) =~= args_view(d@));
            assert(views(brave@) =~= args_view(brave@));
            assert(views(cautious@) =~= args_view(cautious@));
            assert(args_view(cautious@).len() > 0);
        }
        Facets(d)
    }
}

/// Whether no literal of the table is the smallest `i32`, so that each can
/// be negated.
pub open spec fn negatable(table: Seq<(Symbol, i32)>) -> bool {
    forall|i: int| 0 <= i < table.len() ==> #[trigger] table[i].1 != i32::MIN
}

/// The state of a navigation: the program, the solver literal of each of its
/// atoms, the facets at the start and under the current route, the route and
/// the solver literals of its facets.
pub struct Navigator {
    /// The logic program.
    pub logic_program: String,
    /// The atoms of the program with their solver literals.
    pub literals: Vec<(Symbol, i32)>,
    /// How many answer sets to show by default.
    pub n: usize,
    /// The facets under the current route.
    pub current_facets: Facets,
    /// The facets of the program.
    pub initial_facets: Facets,
    /// The solver literals of the facets on the route, in order.
    pub active_facets: Vec<i32>,
    /// The facets activated so far, in order.
    pub route: Route,
}

impl Navigator {
    /// The atoms of the program with their solver literals.
    pub open spec fn table(&self) -> Seq<(Symbol, i32)> {
        self.literals@
    }

    /// Whether the route and the literals it activates agree: the literals
    /// are those of the route's facets, in the same order.
    pub open spec fn wf(&self) -> bool {
        &&& negatable(self.table())
        &&& self.active_facets@.len() == self.route@.len()
        &&& forall|i: int|
            0 <= i < self.route@.len() ==> literal_of(self.table(), #[trigger] self.route@[i])
                == Some(self.active_facets@[i])
    }

    /// A navigation at its start: `atoms` are the program's atoms with their
    /// solver literals, `brave` and `cautious` the consequences of the
    /// program; the route is empty and the current facets are the initial
    /// ones.
    pub fn new(
        source: String,
        n: usize,
        atoms: Vec<(Symbol, i32)>,
        brave: Vec<Symbol>,
        cautious: Vec<Symbol>,
    ) -> (r: Navigator)
        requires
            negatable(atoms@),
        ensures
            r.wf(),
            r.logic_program@ == source@,
            r.n == n,
            r.table() == atoms@,
            is_inclusive_facets(r.initial_facets@, args_view(brave@), args_view(cautious@)),
            r.current_facets@ == r.initial_facets@,
            r.route@.len() == 0,
            r.active_facets@.len() == 0,
    {
        let initial_facets = inclusive_facets(brave, cautious);
        let current = Facets(crate::symbol::copy_symbols(initial_facets.0.as_slice()));
        let r = Navigator {
            logic_program: source,
            literals: atoms,
            n,
            current_facets: current,
            initial_facets,
            active_facets: Vec::new(),
            route: Route(Vec::new()),
        };
        assert(r.route@ =~= Seq::<Seq<char>>::empty());
        r
    }

    /// The literal of the atom `sym`.
    fn lookup(&self, sym: &Symbol) -> (r: Option<i32>)
        ensures
            r == lookup(self.table(), sym@),
    {
        let mut i = self.literals.len();
        assert(self.literals@.subrange(0, i as int) =~= self.literals@);
        while i > 0
            invariant
                i <= self.literals@.len(),
                lookup(self.literals@, sym@) == lookup(self.literals@.subrange(0, i as int), sym@),
            decreases i,
        {
            let ghost t = self.literals@.subrange(0, i as int);
            assert(t.drop_last() =~= self.literals@.subrange(0, i - 1));
            if crate::symbol::symbol_eq(&self.literals[i - 1].0, sym) {
                return Some(self.literals[i - 1].1);
            }
            i = i - 1;
        }
        assert(self.literals@.subrange(0, 0) =~= Seq::<(Symbol, i32)>::empty());
        None
    }

    /// The solver literal that a facet text stands for: `a` the literal of
    /// the atom `a`, `~a` its negation.
    pub fn literal(&self, s: &str) -> (r: Result<i32, NavigatorError>)
        requires
            negatable(self.table()),
        ensures
            match r {
                Ok(l) => literal_of(self.table(), s@) == Some(l),
                Err(e) => literal_of(self.table(), s@) is None && e == NavigatorError::InvalidInput(
                    e->InvalidInput_0,
                ) && e->InvalidInput_0@ == s@,
            },
    {
        let v = str_chars(s);
        let negative = v.len() > 0 && v[0] == '~';
        let prefixes: [char; 1] = ['~'];
        let parsed = if negative {
            let rest = crate::text::subrange_to_string(v.as_slice(), 1, v.len());
            assert(rest@ =~= s@.drop_first());
            proof {
                lemma_tilde_prefix(rest@);
            }
            Atom(rest.as_str()).parse(&prefixes)
        } else {
            proof {
                lemma_tilde_prefix(s@);
            }
            Atom(s).parse(&prefixes)
        };
        assert(prefixes@ =~= seq!['~']);
        match parsed {
            Some(sym) => match self.lookup(&sym) {
                Some(l) => {
                    if negative {
                        proof {
                            lemma_lookup_in_table(self.table(), sym@);
                        }
                        Ok(-l)
                    } else {
                        Ok(l)
                    }
                },
                None => Err(NavigatorError::InvalidInput(String::from_str(s))),
            },
            None => Err(NavigatorError::InvalidInput(String::from_str(s))),
        }
    }

    /// The literals of the texts that stand for one, in order; the others are
    /// left out.
    pub fn parse_input_to_literals(&self, input: &[String]) -> (r: Vec<i32>)
        requires
            negatable(self.table()),
        ensures
            r@ == literals_of(self.table(), strings_view(input@)),
    {
        let mut r: Vec<i32> = Vec::new();
        let mut i: usize = 0;
        while i < input.len()
            invariant
                i <= input@.len(),
                negatable(self.table()),
                r@ == literals_of(self.table(), strings_view(input@.subrange(0, i as int))),
            decreases input@.len() - i,
        {
            proof {
                assert(strings_view(input@.subrange(0, i + 1)).drop_last() =~= strings_view(
                    input@.subrange(0, i as int),
                ));
                assert(strings_view(input@.subrange(0, i + 1)).last() == input@[i as int]@);
            }
            match self.literal(input[i].as_str()) {
                Ok(l) => {
                    r.push(l);
                    assert(r@ =~= literals_of(self.table(), strings_view(input@.subrange(0, i + 1))));
                },
                Err(_) => {
                    assert(r@ =~= literals_of(self.table(), strings_view(input@.subrange(0, i + 1))));
                },
            }
            i = i + 1;
        }
        assert(input@.subrange(0, input@.len() as int) =~= input@);
        r
    }
}

/// A literal found in a negatable table can be negated.
proof fn lemma_lookup_in_table(table: Seq<(Symbol, i32)>, k: SymbolView)
    requires
        negatable(table),
        lookup(table, k) is Some,
    ensures
        lookup(table, k)->0 != i32::MIN,
    decreases table.len(),
{
    if table.last().0@ != k {
        assert forall|i: int| 0 <= i < table.drop_last().len() implies #[trigger] table.drop_last()[i].1 != i32::MIN by {
            assert(table.drop_last()[i] == table[i]);
        }
        lemma_lookup_in_table(table.drop_last(), k);
    } else {
        assert(table[table.len() - 1].1 != i32::MIN);
    }
}

/// A text that starts (after white space) with `~` starts with a one-byte
/// character.
proof fn lemma_tilde_prefix(t: Seq<char>)
    ensures
        crate::translator::has_prefix(t, seq!['~']) ==> (trim(t)[0] as u32) < 0x80,
{
    if crate::translator::has_prefix(t, seq!['~']) {
        let k = choose|k: int| 0 <= k < seq!['~'].len() && seq!['~'][k] == trim(t)[0];
        assert(trim(t)[0] == '~');
    }
}

/// The written forms of the symbols of `facets`.
pub open spec fn reprs<S: Repr>(facets: Seq<S>) -> Seq<Seq<char>> {
    facets.map_values(|f: S| f.repr_spec())
}

pub(crate) proof fn lemma_filter_push<A>(s: Seq<A>, x: A, p: spec_fn(A) -> bool)
    ensures
        s.push(x).filter(p) == if p(x) {
            s.filter(p).push(x)
        } else {
            s.filter(p)
        },
{
    reveal_with_fuel(Seq::filter, 1);
    assert(s.push(x).drop_last() =~= s);
}

proof fn lemma_filter_filter<A>(s: Seq<A>, p: spec_fn(A) -> bool, q: spec_fn(A) -> bool)
    ensures
        s.filter(p).filter(q) == s.filter(|x: A| p(x) && q(x)),
    decreases s.len(),
{
    reveal_with_fuel(Seq::filter, 1);
    if s.len() > 0 {
        lemma_filter_filter(s.drop_last(), p, q);
        assert(s.drop_last().push(s.last()) =~= s);
        lemma_filter_push(s.drop_last(), s.last(), p);
        lemma_filter_push(s.drop_last().filter(p), s.last(), q);
        lemma_filter_push(s.drop_last(), s.last(), |x: A| p(x) && q(x));
    } else {
        assert(s.filter(p).filter(q) =~= s.filter(|x: A| p(x) && q(x)));
    }
}

proof fn lemma_literals_of_push(table: Seq<(Symbol, i32)>, s: Seq<Seq<char>>, x: Seq<char>)
    ensures
        literals_of(table, s.push(x)) == literals_of(table, s) + match literal_of(table, x) {
            Some(l) => seq![l],
            None => Seq::<i32>::empty(),
        },
{
    assert(s.push(x).drop_last() =~= s);
}

/// Removing the same positions from a route and from its literals keeps
/// them in agreement.
proof fn lemma_removals_keep_agreement(
    table: Seq<(Symbol, i32)>,
    route: Seq<Seq<char>>,
    active: Seq<i32>,
    positions: Seq<usize>,
)
    requires
        route.len() == active.len(),
        forall|i: int| 0 <= i < route.len() ==> literal_of(table, #[trigger] route[i]) == Some(active[i]),
        removals_fit(route.len(), positions),
    ensures
        apply_removals(route, positions).len() == apply_removals(active, positions).len(),
        apply_removals(route, positions).len() == route.len() - positions.len(),
        forall|i: int|
            0 <= i < apply_removals(route, positions).len() ==> literal_of(
                table,
                #[trigger] apply_removals(route, positions)[i],
            ) == Some(apply_removals(active, positions)[i]),
    decreases positions.len(),
{
    if positions.len() > 0 {
        let pre = positions.drop_last();
        assert(removals_fit(route.len(), pre)) by {
            assert forall|k: int| 0 <= k < pre.len() implies #[trigger] pre[k] < route.len() - k by {
                assert(pre[k] == positions[k]);
            }
        }
        lemma_removals_keep_agreement(table, route, active, pre);
        let r0 = apply_removals(route, pre);
        let a0 = apply_removals(active, pre);
        let p = positions.last() as int;
        assert(positions[positions.len() - 1] < route.len() - (positions.len() - 1));
        assert forall|i: int| 0 <= i < r0.remove(p).len() implies literal_of(
            table,
            #[trigger] r0.remove(p)[i],
        ) == Some(a0.remove(p)[i]) by {
            if i < p {
                assert(r0.remove(p)[i] == r0[i]);
                assert(a0.remove(p)[i] == a0[i]);
            } else {
                assert(r0.remove(p)[i] == r0[i + 1]);
                assert(a0.remove(p)[i] == a0[i + 1]);
            }
        }
    }
}

/// For a route in agreement with its literals, the literals are those of
/// the route's facets.
pub proof fn lemma_agreement_literals(table: Seq<(Symbol, i32)>, route: Seq<Seq<char>>, active: Seq<i32>)
    requires
        route.len() == active.len(),
        forall|i: int| 0 <= i < route.len() ==> literal_of(table, #[trigger] route[i]) == Some(active[i]),
    ensures
        active == literals_of(table, route),
    decreases route.len(),
{
    if route.len() > 0 {
        assert forall|i: int| 0 <= i < route.drop_last().len() implies literal_of(
            table,
            #[trigger] route.drop_last()[i],
        ) == Some(active.drop_last()[i]) by {
            assert(route.drop_last()[i] == route[i]);
        }
        lemma_agreement_literals(table, route.drop_last(), active.drop_last());
        assert(literal_of(table, route[route.len() - 1]) == Some(active[active.len() - 1]));
        assert(active.drop_last() + seq![active.last()] =~= active);
    } else {
        assert(active =~= Seq::<i32>::empty());
    }
}

/// The literals of the route's entries that are not among `gone`, each
/// where it stood: what deactivating `gone` leaves of the active literals.
pub open spec fn kept_literals(route: Seq<Seq<char>>, active: Seq<i32>, gone: Seq<Seq<char>>) -> Seq<i32>
    decreases route.len(),
{
    if route.len() == 0 || active.len() == 0 {
        Seq::empty()
    } else {
        kept_literals(route.drop_last(), active.drop_last(), gone) + if gone.contains(route.last()) {
            Seq::<i32>::empty()
        } else {
            seq![active.last()]
        }
    }
}

/// When the literals agree with the route, the literals of the route without
/// the entries among `gone` are the old literals at the kept positions.
proof fn lemma_kept_literals(table: Seq<(Symbol, i32)>, route: Seq<Seq<char>>, active: Seq<i32>, gone: Seq<Seq<char>>)
    requires
        active.len() == route.len(),
        forall|i: int| 0 <= i < route.len() ==> literal_of(table, #[trigger] route[i]) == Some(active[i]),
    ensures
        literals_of(table, route.filter(|r: Seq<char>| !gone.contains(r))) == kept_literals(route, active, gone),
    decreases route.len(),
{
    let p = |r: Seq<char>| !gone.contains(r);
    if route.len() > 0 {
        let r1 = route.drop_last();
        let a1 = active.drop_last();
        assert forall|i: int| 0 <= i < r1.len() implies literal_of(table, #[trigger] r1[i]) == Some(a1[i]) by {
            assert(r1[i] == route[i]);
        }
        lemma_kept_literals(table, r1, a1, gone);
        assert(r1.push(route.last()) =~= route);
        lemma_filter_push(r1, route.last(), p);
        assert(literal_of(table, route[route.len() - 1]) == Some(active[active.len() - 1]));
        if p(route.last()) {
            let f = r1.filter(p).push(route.last());
            assert(f.drop_last() =~= r1.filter(p));
        }
    } else {
        assert(route.filter(p) =~= Seq::<Seq<char>>::empty()) by {
            reveal_with_fuel(Seq::filter, 1);
        }
    }
}

impl Navigator {
    /// Activates the facets of `facets` that stand for a literal of the
    /// program, in order: each joins the route and its literal the active
    /// literals. The others are left out and come back as errors, in order.
    /// The current facets are recomputed afterwards by `update`.
    pub fn activate(&mut self, facets: &[String]) -> (errors: Vec<NavigatorError>)
        requires
            old(self).wf(),
        ensures
            final(self).wf(),
            final(self).route@ == old(self).route@ + known(old(self).table(), strings_view(facets@)),
            final(self).active_facets@ == old(self).active_facets@ + literals_of(
                old(self).table(),
                strings_view(facets@),
            ),
            errors@.len() == unknown(old(self).table(), strings_view(facets@)).len(),
            forall|i: int|
                0 <= i < errors@.len() ==> #[trigger] errors@[i] == NavigatorError::InvalidInput(
                    errors@[i]->InvalidInput_0,
                ) && errors@[i]->InvalidInput_0@ == unknown(
                    old(self).table(),
                    strings_view(facets@),
                )[i],
            final(self).literals == old(self).literals,
            final(self).current_facets == old(self).current_facets,
            final(self).initial_facets == old(self).initial_facets,
            final(self).logic_program == old(self).logic_program,
            final(self).n == old(self).n,
    {
        let ghost table = self.table();
        let ghost keep = |t: Seq<char>| literal_of(table, t) is Some;
        let ghost drop = |t: Seq<char>| literal_of(table, t) is None;
        let mut errors: Vec<NavigatorError> = Vec::new();
        let mut i: usize = 0;
        proof {
            assert(strings_view(facets@.subrange(0, 0)) =~= Seq::<Seq<char>>::empty());
            assert(old(self).route@ + Seq::<Seq<char>>::empty().filter(keep) =~= old(self).route@);
            assert(old(self).active_facets@ + Seq::<i32>::empty() =~= old(self).active_facets@);
        }
        while i < facets.len()
            invariant
                i <= facets@.len(),
                self.wf(),
                table == self.table(),
                table == old(self).table(),
                keep == (|t: Seq<char>| literal_of(table, t) is Some),
                drop == (|t: Seq<char>| literal_of(table, t) is None),
                self.route@ == old(self).route@ + strings_view(facets@.subrange(0, i as int)).filter(keep),
                self.active_facets@ == old(self).active_facets@ + literals_of(
                    table,
                    strings_view(facets@.subrange(0, i as int)),
                ),
                errors@.len() == strings_view(facets@.subrange(0, i as int)).filter(drop).len(),
                forall|k: int|
                    0 <= k < errors@.len() ==> #[trigger] errors@[k] == NavigatorError::InvalidInput(
                        errors@[k]->InvalidInput_0,
                    ) && errors@[k]->InvalidInput_0@ == strings_view(
                        facets@.subrange(0, i as int),
                    ).filter(drop)[k],
                self.literals == old(self).literals,
                self.current_facets == old(self).current_facets,
                self.initial_facets == old(self).initial_facets,
                self.logic_program == old(self).logic_program,
                self.n == old(self).n,
            decreases facets@.len() - i,
        {
            let ghost done = strings_view(facets@.subrange(0, i as int));
            let ghost x = facets@[i as int]@;
            proof {
                assert(strings_view(facets@.subrange(0, i + 1)) =~= done.push(x));
                lemma_filter_push(done, x, keep);
                lemma_filter_push(done, x, drop);
                lemma_literals_of_push(table, done, x);
            }
            match self.literal(facets[i].as_str()) {
                Ok(l) => {
                    let ghost old_route = self.route@;
                    self.route.activate(copy_string(&facets[i]));
                    self.active_facets.push(l);
                    proof {
                        assert(self.route@ =~= old(self).route@ + strings_view(facets@.subrange(0, i + 1)).filter(keep));
                        assert(self.active_facets@ =~= old(self).active_facets@ + literals_of(
                            table,
                            strings_view(facets@.subrange(0, i + 1)),
                        ));
                        assert forall|k: int| 0 <= k < self.route@.len() implies literal_of(
                            table,
                            #[trigger] self.route@[k],
                        ) == Some(self.active_facets@[k]) by {
                            if k < old_route.len() {
                                assert(self.route@[k] == old_route[k]);
                            }
                        }
                    }
                },
                Err(e) => {
                    errors.push(e);
                    proof {
                        assert(self.route@ =~= old(self).route@ + strings_view(facets@.subrange(0, i + 1)).filter(keep));
                        assert(self.active_facets@ =~= old(self).active_facets@ + literals_of(
                            table,
                            strings_view(facets@.subrange(0, i + 1)),
                        ));
                        let f2 = strings_view(facets@.subrange(0, i + 1)).filter(drop);
                        assert forall|k: int| 0 <= k < errors@.len() implies #[trigger] errors@[k] == NavigatorError::InvalidInput(
                            errors@[k]->InvalidInput_0,
                        ) && errors@[k]->InvalidInput_0@ == f2[k] by {
                            if k < errors@.len() - 1 {
                                assert(f2[k] == done.filter(drop)[k]);
                            }
                        }
                    }
                },
            }
            i = i + 1;
        }
        assert(facets@.subrange(0, facets@.len() as int) =~= facets@);
        errors
    }

    /// Deactivates the given facets: every occurrence of each of them (by its
    /// written form) leaves the route, and its literal leaves the active
    /// literals. The current facets are recomputed afterwards by `update`.
    #[verifier::loop_isolation(false)]
    pub fn deactivate_any<S: Repr>(&mut self, facets: &[S])
        requires
            old(self).wf(),
        ensures
            final(self).wf(),
            final(self).route@ == old(self).route@.filter(
                |r: Seq<char>| !reprs(facets@).contains(r),
            ),
            final(self).active_facets@ == literals_of(final(self).table(), final(self).route@),
            final(self).active_facets@ == kept_literals(
                old(self).route@,
                old(self).active_facets@,
                reprs(facets@),
            ),
            final(self).literals == old(self).literals,
            final(self).current_facets == old(self).current_facets,
            final(self).initial_facets == old(self).initial_facets,
            final(self).logic_program == old(self).logic_program,
            final(self).n == old(self).n,
    {
        let ghost r0 = self.route@;
        let mut i: usize = 0;
        proof {
            assert(reprs(facets@.subrange(0, 0)) =~= Seq::<Seq<char>>::empty());
            assert(r0.filter(|r: Seq<char>| !reprs(facets@.subrange(0, 0)).contains(r)) =~= r0) by {
                lemma_filter_true(r0, |r: Seq<char>| !reprs(facets@.subrange(0, 0)).contains(r));
            }
        }
        while i < facets.len()
            invariant
                i <= facets@.len(),
                self.wf(),
                r0 == old(self).route@,
                self.route@ == r0.filter(|r: Seq<char>| !reprs(facets@.subrange(0, i as int)).contains(r)),
                self.literals == old(self).literals,
                self.current_facets == old(self).current_facets,
                self.initial_facets == old(self).initial_facets,
                self.logic_program == old(self).logic_program,
                self.n == old(self).n,
            decreases facets@.len() - i,
        {
            let x = facets[i].repr();
            let ghost route_before = self.route@;
            let ghost active_before = self.active_facets@;
            let poss = self.route.deactivate_any(x);
            let ghost route_after = self.route@;
            let mut k: usize = 0;
            while k < poss.len()
                invariant
                    k <= poss@.len(),
                    removals_fit(route_before.len(), poss@),
                    active_before.len() == route_before.len(),
                    forall|j: int| 0 <= j < route_before.len() ==> literal_of(old(self).table(), #[trigger] route_before[j]) == Some(active_before[j]),
                    self.literals == old(self).literals,
                    self.route@ == route_after,
                    self.current_facets == old(self).current_facets,
                    self.initial_facets == old(self).initial_facets,
                    self.logic_program == old(self).logic_program,
                    self.n == old(self).n,
                    self.active_facets@ == apply_removals(active_before, poss@.subrange(0, k as int)),
                    self.active_facets@.len() == active_before.len() - k,
                decreases poss@.len() - k,
            {
                let pos = poss[k];
                assert(poss@[k as int] < route_before.len() - k);
                self.active_facets.remove(pos);
                proof {
                    assert(poss@.subrange(0, k + 1).drop_last() =~= poss@.subrange(0, k as int));
                }
                k = k + 1;
            }
            proof {
                assert(poss@.subrange(0, poss@.len() as int) =~= poss@);
                lemma_removals_keep_agreement(self.table(), route_before, active_before, poss@);
                let xs = reprs(facets@.subrange(0, i as int));
                let xs2 = reprs(facets@.subrange(0, i + 1));
                assert(xs2 =~= xs.push(x@));
                assert forall|r: Seq<char>| xs2.contains(r) <==> (xs.contains(r) || r == x@) by {
                    if xs2.contains(r) {
                        let j = choose|j: int| 0 <= j < xs2.len() && xs2[j] == r;
                        if j < xs.len() {
                            assert(xs[j] == r);
                        }
                    }
                    if xs.contains(r) {
                        let j = choose|j: int| 0 <= j < xs.len() && xs[j] == r;
                        assert(xs2[j] == r);
                    }
                    if r == x@ {
                        assert(xs2[xs.len() as int] == r);
                    }
                }
                let p = |r: Seq<char>| !xs.contains(r);
                let q = |f: Seq<char>| f != x@;
                lemma_filter_filter(r0, p, q);
                let pq = |y: Seq<char>| p(y) && q(y);
                let p2 = |r: Seq<char>| !xs2.contains(r);
                assert(pq =~= p2);
                assert(route_before == r0.filter(p));
                assert(self.route@ == route_before.filter(q));
                assert(self.route@ == r0.filter(p2));
                assert(self.route@ == apply_removals(route_before, poss@));
            }
            i = i + 1;
        }
        proof {
            assert(facets@.subrange(0, facets@.len() as int) =~= facets@);
            lemma_agreement_literals(self.table(), self.route@, self.active_facets@);
            lemma_kept_literals(old(self).table(), r0, old(self).active_facets@, reprs(facets@));
            let pa = |r: Seq<char>| !reprs(facets@.subrange(0, facets@.len() as int)).contains(r);
            let pb = |r: Seq<char>| !reprs(facets@).contains(r);
            assert(pa =~= pb);
        }
    }

    /// Empties the route, unless it is empty already; tells whether it did.
    /// The current facets are recomputed afterwards by `update`.
    pub fn clear_route(&mut self) -> (cleared: bool)
        requires
            old(self).wf(),
        ensures
            final(self).wf(),
            cleared == (old(self).route@.len() > 0),
            final(self).route@.len() == 0,
            final(self).active_facets@.len() == 0,
            final(self).literals == old(self).literals,
            final(self).current_facets == old(self).current_facets,
            final(self).initial_facets == old(self).initial_facets,
            final(self).logic_program == old(self).logic_program,
            final(self).n == old(self).n,
            !cleared ==> *final(self) == *old(self),
    {
        if self.route.0.len() == 0 {
            assert(self.active_facets@.len() == 0);
            return false;
        }
        self.route = Route(Vec::new());
        self.active_facets = Vec::new();
        assert(self.route@ =~= Seq::<Seq<char>>::empty());
        true
    }

    /// Sets the current facets from the brave and the cautious consequences
    /// under the active literals.
    pub fn update(&mut self, brave: Vec<Symbol>, cautious: Vec<Symbol>)
        requires
            old(self).wf(),
        ensures
            final(self).wf(),
            is_inclusive_facets(final(self).current_facets@, args_view(brave@), args_view(cautious@)),
            final(self).route == old(self).route,
            final(self).active_facets == old(self).active_facets,
            final(self).literals == old(self).literals,
            final(self).initial_facets == old(self).initial_facets,
            final(self).logic_program == old(self).logic_program,
            final(self).n == old(self).n,
    {
        self.current_facets = inclusive_facets(brave, cautious);
    }

    /// The literals that will be active after activating `facets`: those
    /// that are active, then those of the facets that stand for one. The
    /// consequences that `activate_with` takes are those under these
    /// literals.
    pub fn activation_literals(&self, facets: &[String]) -> (r: Vec<i32>)
        requires
            self.wf(),
        ensures
            r@ == self.active_facets@ + literals_of(self.table(), strings_view(facets@)),
    {
        let mut r: Vec<i32> = Vec::new();
        let mut i: usize = 0;
        while i < self.active_facets.len()
            invariant
                i <= self.active_facets@.len(),
                r@ == self.active_facets@.take(i as int),
            decreases self.active_facets@.len() - i,
        {
            r.push(self.active_facets[i]);
            assert(r@ =~= self.active_facets@.take(i + 1));
            i = i + 1;
        }
        assert(self.active_facets@.take(i as int) =~= self.active_facets@);
        let more = self.parse_input_to_literals(facets);
        let mut k: usize = 0;
        let ghost base = r@;
        while k < more.len()
            invariant
                k <= more@.len(),
                r@ == base + more@.take(k as int),
            decreases more@.len() - k,
        {
            r.push(more[k]);
            assert(more@.take(k + 1) =~= more@.take(k as int).push(more@[k as int]));
            k = k + 1;
        }
        assert(more@.take(k as int) =~= more@);
        r
    }

    /// Activates `facets` (as `activate` does) and sets the current facets
    /// from `brave` and `cautious`, the consequences under the literals that
    /// `activation_literals` gave for the same facets: after the call, the
    /// active literals are exactly those, and the current facets are the
    /// inclusive facets of those consequences.
    pub fn activate_with(&mut self, facets: &[String], brave: Vec<Symbol>, cautious: Vec<Symbol>) -> (errors: Vec<NavigatorError>)
        requires
            old(self).wf(),
        ensures
            final(self).wf(),
            final(self).route@ == old(self).route@ + known(old(self).table(), strings_view(facets@)),
            final(self).active_facets@ == old(self).active_facets@ + literals_of(
                old(self).table(),
                strings_view(facets@),
            ),
            is_inclusive_facets(final(self).current_facets@, args_view(brave@), args_view(cautious@)),
            errors@.len() == unknown(old(self).table(), strings_view(facets@)).len(),
            forall|i: int|
                0 <= i < errors@.len() ==> #[trigger] errors@[i] == NavigatorError::InvalidInput(
                    errors@[i]->InvalidInput_0,
                ) && errors@[i]->InvalidInput_0@ == unknown(
                    old(self).table(),
                    strings_view(facets@),
                )[i],
            final(self).literals == old(self).literals,
            final(self).initial_facets == old(self).initial_facets,
            final(self).logic_program == old(self).logic_program,
            final(self).n == old(self).n,
    {
        let errors = self.activate(facets);
        self.update(brave, cautious);
        errors
    }

    /// The literals that will be active after deactivating `facets`: those
    /// of the route without every occurrence of the facets. The consequences
    /// that `deactivate_with` takes are those under these literals.
    pub fn deactivation_literals<S: Repr>(&self, facets: &[S]) -> (r: Vec<i32>)
        requires
            self.wf(),
        ensures
            r@ == literals_of(self.table(), self.route@.filter(|t: Seq<char>| !reprs(facets@).contains(t))),
    {
        let mut xs: Vec<String> = Vec::new();
        let mut i: usize = 0;
        while i < facets.len()
            invariant
                i <= facets@.len(),
                strings_view(xs@) == reprs(facets@).take(i as int),
            decreases facets@.len() - i,
        {
            let x = facets[i].repr();
            xs.push(x);
            assert(strings_view(xs@) =~= strings_view(xs@.drop_last()).push(x@));
            assert(reprs(facets@).take(i + 1) =~= reprs(facets@).take(i as int).push(facets@[i as int].repr_spec()));
            assert(strings_view(xs@) =~= reprs(facets@).take(i + 1));
            i = i + 1;
        }
        assert(reprs(facets@).take(i as int) =~= reprs(facets@));
        let ghost p = |t: Seq<char>| !reprs(facets@).contains(t);
        let mut kept: Vec<String> = Vec::new();
        let mut k: usize = 0;
        assert(self.route@.take(0).filter(p) =~= Seq::<Seq<char>>::empty());
        while k < self.route.0.len()
            invariant
                k <= self.route@.len(),
                self.route@.len() == self.route.0@.len(),
                strings_view(xs@) == reprs(facets@),
                p == (|t: Seq<char>| !reprs(facets@).contains(t)),
                strings_view(kept@) == self.route@.take(k as int).filter(p),
            decreases self.route@.len() - k,
        {
            proof {
                assert(self.route@[k as int] == self.route.0@[k as int]@);
                assert(self.route@.take(k + 1) =~= self.route@.take(k as int).push(self.route@[k as int]));
                lemma_filter_push(self.route@.take(k as int), self.route@[k as int], p);
            }
            if !crate::utils::strings_contain(xs.as_slice(), &self.route.0[k]) {
                let t = copy_string(&self.route.0[k]);
                kept.push(t);
                assert(strings_view(kept@) =~= strings_view(kept@.drop_last()).push(t@));
            }
            k = k + 1;
        }
        assert(self.route@.take(k as int) =~= self.route@);
        self.parse_input_to_literals(kept.as_slice())
    }

    /// Deactivates `facets` (as `deactivate_any` does) and sets the current
    /// facets from `brave` and `cautious`, the consequences under the
    /// literals that `deactivation_literals` gave for the same facets: after
    /// the call, the active literals are exactly those, and the current facets
    /// are the inclusive facets of those consequences.
    pub fn deactivate_with<S: Repr>(&mut self, facets: &[S], brave: Vec<Symbol>, cautious: Vec<Symbol>)
        requires
            old(self).wf(),
        ensures
            final(self).wf(),
            final(self).route@ == old(self).route@.filter(
                |r: Seq<char>| !reprs(facets@).contains(r),
            ),
            final(self).active_facets@ == literals_of(
                old(self).table(),
                old(self).route@.filter(|r: Seq<char>| !reprs(facets@).contains(r)),
            ),
            final(self).active_facets@ == kept_literals(
                old(self).route@,
                old(self).active_facets@,
                reprs(facets@),
            ),
            is_inclusive_facets(final(self).current_facets@, args_view(brave@), args_view(cautious@)),
            final(self).literals == old(self).literals,
            final(self).initial_facets == old(self).initial_facets,
            final(self).logic_program == old(self).logic_program,
            final(self).n == old(self).n,
    {
        self.deactivate_any(facets);
        self.update(brave, cautious);
    }

    /// The assumptions of each step of a maximal-safety query on `route`:
    /// for each facet, the literals of `route` with the facet appended.
    pub fn step_assumptions(&self, route: &Route, facets: &[String]) -> (r: Vec<Vec<i32>>)
        requires
            self.wf(),
        ensures
            r@.len() == facets@.len(),
            forall|i: int|
                0 <= i < facets@.len() ==> #[trigger] r@[i]@ == literals_of(
                    self.table(),
                    route@.push(facets@[i]@),
                ),
    {
        let mut r: Vec<Vec<i32>> = Vec::new();
        let mut i: usize = 0;
        while i < facets.len()
            invariant
                self.wf(),
                i <= facets@.len(),
                r@.len() == i,
                forall|j: int|
                    0 <= j < i ==> #[trigger] r@[j]@ == literals_of(self.table(), route@.push(facets@[j]@)),
            decreases facets@.len() - i,
        {
            let step = route.peek_step(facets[i].as_str());
            let a = self.parse_input_to_literals(step.0.as_slice());
            r.push(a);
            i = i + 1;
        }
        r
    }

    /// The literals of the route with `facet` appended: the assumptions of
    /// a step by `facet`.
    pub fn peek_assumptions(&self, facet: &str) -> (r: Vec<i32>)
        requires
            self.wf(),
        ensures
            r@ == literals_of(self.table(), self.route@.push(facet@)),
    {
        let route = self.route.peek_step(facet);
        let r = self.parse_input_to_literals(route.0.as_slice());
        r
    }
}

/// Activating facets and then deactivating them (with everything they
/// are written as, and more) gives back the route that the navigation had,
/// and with it its literals, when none of them was on that route.
pub proof fn lemma_activate_then_deactivate(
    table: Seq<(Symbol, i32)>,
    route: Seq<Seq<char>>,
    added: Seq<Seq<char>>,
    removed: Seq<Seq<char>>,
)
    requires
        forall|i: int| 0 <= i < route.len() ==> !removed.contains(#[trigger] route[i]),
        forall|x: Seq<char>| added.contains(x) ==> removed.contains(x),
    ensures
        (route + known(table, added)).filter(|r: Seq<char>| !removed.contains(r)) == route,
        literals_of(
            table,
            (route + known(table, added)).filter(|r: Seq<char>| !removed.contains(r)),
        ) == literals_of(table, route),
{
    let keep = |r: Seq<char>| !removed.contains(r);
    let k = known(table, added);
    Seq::filter_distributes_over_add(route, k, keep);
    assert(route.filter(keep) == route) by {
        lemma_filter_true_on(route, keep);
    }
    assert(k.filter(keep) =~= Seq::<Seq<char>>::empty()) by {
        if k.filter(keep).len() > 0 {
            let x = k.filter(keep)[0];
            k.lemma_filter_pred(keep, 0);
            assert(k.filter(keep).contains(x));
            k.lemma_filter_contains_rev(keep, x);
            added.lemma_filter_contains_rev(|t: Seq<char>| literal_of(table, t) is Some, x);
            assert(removed.contains(x));
        }
    }
    assert(route + Seq::<Seq<char>>::empty() =~= route);
}

proof fn lemma_filter_true_on<A>(s: Seq<A>, p: spec_fn(A) -> bool)
    requires
        forall|i: int| 0 <= i < s.len() ==> p(#[trigger] s[i]),
    ensures
        s.filter(p) == s,
    decreases s.len(),
{
    reveal_with_fuel(Seq::filter, 1);
    if s.len() > 0 {
        assert forall|i: int| 0 <= i < s.drop_last().len() implies p(#[trigger] s.drop_last()[i]) by {
            assert(s.drop_last()[i] == s[i]);
        }
        lemma_filter_true_on(s.drop_last(), p);
        assert(p(s[s.len() - 1]));
        assert(s.drop_last().push(s.last()) =~= s);
    } else {
        assert(s.filter(p) =~= s);
    }
}

/// A facet and its exclusive form stand for opposite literals: `~t` for the
/// negation of the literal that `t` stands for, and for none when `t`
/// stands for none.
pub proof fn lemma_exclusive_literal(table: Seq<(Symbol, i32)>, t: Seq<char>)
    requires
        negatable(table),
        t.len() == 0 || t[0] != '~',
    ensures
        literal_of(table, seq!['~'] + t) == match literal_of(table, t) {
            Some(l) => Some(-l as i32),
            None => None,
        },
{
    assert((seq!['~'] + t).drop_first() =~= t);
    assert((seq!['~'] + t)[0] == '~');
}

/// The literals that rule out the atoms of an answer set, other than the
/// ignored ones and those the program lacks, in order: each atom's literal
/// negated. A greedy search for a sample of diverse answer sets adds them to
/// its assumptions after each answer set it finds.
pub open spec fn blocking(table: Seq<(Symbol, i32)>, model: Seq<SymbolView>, ignored: Seq<SymbolView>) -> Seq<
    i32,
>
    decreases model.len(),
{
    if model.len() == 0 {
        Seq::empty()
    } else {
        blocking(table, model.drop_last(), ignored) + if !ignored.contains(model.last()) && lookup(
            table,
            model.last(),
        ) is Some {
            seq![-lookup(table, model.last())->0 as i32]
        } else {
            Seq::<i32>::empty()
        }
    }
}

impl Navigator {
    /// The literals that rule out the atoms of the answer set `model` other
    /// than the `ignored` ones.
    pub fn blocking_literals(&self, model: &[Symbol], ignored: &[Symbol]) -> (r: Vec<i32>)
        requires
            negatable(self.table()),
        ensures
            r@ == blocking(self.table(), views(model@), views(ignored@)),
    {
        let mut r: Vec<i32> = Vec::new();
        let mut i: usize = 0;
        while i < model.len()
            invariant
                i <= model@.len(),
                negatable(self.table()),
                r@ == blocking(self.table(), views(model@.subrange(0, i as int)), views(ignored@)),
            decreases model@.len() - i,
        {
            proof {
                assert(views(model@.subrange(0, i + 1)).drop_last() =~= views(model@.subrange(0, i as int)));
                assert(views(model@.subrange(0, i + 1)).last() == model@[i as int]@);
            }
            if !crate::utils::symbols_contain(ignored, &model[i]) {
                match self.lookup(&model[i]) {
                    Some(l) => {
                        proof {
                            lemma_lookup_in_table(self.table(), model@[i as int]@);
                        }
                        r.push(-l);
                    },
                    None => {},
                }
            }
            assert(r@ =~= blocking(self.table(), views(model@.subrange(0, i + 1)), views(ignored@)));
            i = i + 1;
        }
        assert(model@.subrange(0, model@.len() as int) =~= model@);
        r
    }
}

/// Whether a route is maximal safe, from whether the route is satisfiable
/// and whether the route extended by each of its facets is: a satisfiable
/// route under which no facet can be added satisfiably.
pub fn route_maximal_safe(route_satisfiable: bool, steps_satisfiable: &[bool]) -> (r: bool)
    ensures
        r == (route_satisfiable && forall|i: int|
            0 <= i < steps_satisfiable@.len() ==> !#[trigger] steps_satisfiable@[i]),
{
    if !route_satisfiable {
        return false;
    }
    let mut i: usize = 0;
    while i < steps_satisfiable.len()
        invariant
            i <= steps_satisfiable@.len(),
            forall|j: int| 0 <= j < i ==> !#[trigger] steps_satisfiable@[j],
        decreases steps_satisfiable@.len() - i,
    {
        if steps_satisfiable[i] {
            return false;
        }
        i = i + 1;
    }
    true
}

/// What a random walk over the facets does next.
#[derive(Debug, Clone, PartialEq, Eq)]
pub enum WalkStep {
    /// Stop: the route is maximal safe, or the walk took as many steps as
    /// it was asked for.
    Stop,
    /// Activate this facet.
    Activate(String),
    /// Nothing is offered to step by, though the walk must go on.
    Stuck,
}

/// The next step of a random walk that has taken `taken` steps (at most
/// `limit`, if given) on a route that is maximal safe or not: stop when the
/// route is maximal safe or the limit is reached, otherwise activate the
/// offered facet at the position `pick` (taken modulo the number offered;
/// the caller draws it at random), or report that nothing is offered.
pub fn walk_step(maximal_safe: bool, taken: usize, limit: Option<usize>, offered: &Vec<String>, pick: usize) -> (r: WalkStep)
    ensures
        (maximal_safe || limit == Some(taken)) ==> r == WalkStep::Stop,
        !(maximal_safe || limit == Some(taken)) && offered@.len() == 0 ==> r == WalkStep::Stuck,
        !(maximal_safe || limit == Some(taken)) && offered@.len() > 0 ==> (r matches WalkStep::Activate(f)
            && f@ == offered@[(pick as int) % (offered@.len() as int)]@),
{
    let at_limit = match limit {
        Some(l) => l == taken,
        None => false,
    };
    if maximal_safe || at_limit {
        WalkStep::Stop
    } else if offered.len() == 0 {
        WalkStep::Stuck
    } else {
        let k = pick % offered.len();
        WalkStep::Activate(copy_string(&offered[k]))
    }
}

/// Whether two sequences of symbols are equal.
pub fn symbols_eq(a: &[Symbol], b: &[Symbol]) -> (r: bool)
    ensures
        r == (views(a@) == views(b@)),
{
    if a.len() != b.len() {
        assert(views(a@).len() != views(b@).len());
        return false;
    }
    let mut i: usize = 0;
    while i < a.len()
        invariant
            a@.len() == b@.len(),
            i <= a@.len(),
            forall|j: int| 0 <= j < i ==> #[trigger] a@[j]@ == b@[j]@,
        decreases a@.len() - i,
    {
        if !crate::symbol::symbol_eq(&a[i], &b[i]) {
            assert(views(a@)[i as int] != views(b@)[i as int]);
            return false;
        }
        i = i + 1;
    }
    assert(views(a@) =~= views(b@));
    true
}

/// The positions of the answer sets that a listing of all answer sets
/// shows: the first, and each later one that differs from the first.
pub open spec fn shown_positions(models: Seq<Seq<SymbolView>>) -> Seq<usize> {
    Seq::new(models.len(), |m: int| m as usize).filter(|m: usize| m == 0 || models[m as int] != models[0])
}

/// The values of a sequence of vectors of symbols.
pub open spec fn models_view(models: Seq<Vec<Symbol>>) -> Seq<Seq<SymbolView>> {
    models.map_values(|m: Vec<Symbol>| views(m@))
}

/// The positions of the answer sets that a listing of all answer sets
/// shows, in order (answer `k + 1` is the one at position `k`).
pub fn shown_models(models: &[Vec<Symbol>]) -> (r: Vec<usize>)
    ensures
        r@ == shown_positions(models_view(models@)),
{
    let ghost mv = models_view(models@);
    let ghost all = Seq::new(models@.len(), |m: int| m as usize);
    let ghost keep = |m: usize| m == 0 || mv[m as int] != mv[0];
    let mut r: Vec<usize> = Vec::new();
    let mut k: usize = 0;
    while k < models.len()
        invariant
            k <= models@.len(),
            mv == models_view(models@),
            all == Seq::new(models@.len(), |m: int| m as usize),
            keep == (|m: usize| m == 0 || mv[m as int] != mv[0]),
            r@ == all.take(k as int).filter(keep),
        decreases models@.len() - k,
    {
        proof {
            assert(all.take(k + 1) =~= all.take(k as int).push(k));
            lemma_filter_push(all.take(k as int), k, keep);
            assert(mv[k as int] == views(models@[k as int]@));
            assert(mv[0] == views(models@[0]@));
        }
        if k == 0 || !symbols_eq(models[k].as_slice(), models[0].as_slice()) {
            r.push(k);
        }
        k = k + 1;
    }
    assert(all.take(models@.len() as int) =~= all);
    r
}

/// What a listing of some answer sets does with the next one it finds.
#[derive(Debug, Clone, Copy, PartialEq, Eq, Structural)]
pub enum AnswerStep {
    /// Stop without showing it: an early answer set repeats the one before.
    Repeat,
    /// Show it and go on.
    Show,
    /// Show it and stop: it is the last one asked for.
    ShowLast,
}

/// What to do with the answer set numbered `number` (from 1), with the
/// symbols `current`, after the one with `previous`, when `limit` answer sets
/// were asked for.
pub fn next_answer(previous: &[Symbol], number: u64, current: &[Symbol], limit: u64) -> (r: AnswerStep)
    ensures
        r == (if number < 3 && views(previous@) == views(current@) {
            AnswerStep::Repeat
        } else if number == limit {
            AnswerStep::ShowLast
        } else {
            AnswerStep::Show
        }),
{
    if number < 3 && symbols_eq(previous, current) {
        AnswerStep::Repeat
    } else if number == limit {
        AnswerStep::ShowLast
    } else {
        AnswerStep::Show
    }
}

/// How many answer sets a listing shows: `None` (all of them) when 0 are
/// asked for, otherwise the number asked for or else the default.
pub fn answer_limit(requested: Option<usize>, default: usize) -> (r: Option<u64>)
    ensures
        requested == Some(0usize) ==> r is None,
        requested != Some(0usize) ==> r == Some((match requested {
            Some(k) => k,
            None => default,
        }) as u64),
{
    match requested {
        Some(0) => None,
        Some(k) => Some(k as u64),
        None => Some(default as u64),
    }
}

proof fn lemma_filter_true<A>(s: Seq<A>, p: spec_fn(A) -> bool)
    requires
        forall|x: A| #[trigger] p(x),
    ensures
        s.filter(p) == s,
    decreases s.len(),
{
    reveal_with_fuel(Seq::filter, 1);
    if s.len() > 0 {
        lemma_filter_true(s.drop_last(), p);
        assert(s.drop_last().push(s.last()) =~= s);
    } else {
        assert(s.filter(p) =~= s);
    }
}

} // verus!
