//! Collecting samples of answer sets that together show every target atom:
//! the decisions a collection takes between the solver's answers (which
//! literal to solve under next, which answer set to keep, what is still
//! missing, when to stop) and the test whether a collection already holds a
//! perfect sample. The solver's work comes in as arguments.
use vstd::prelude::*;

use crate::cover::{is_exact_cover, sample_cover, sample_rows, symbol_sets};
use crate::navigator::{lemma_filter_push, lookup, negatable, symbols_eq, Navigator};
use crate::sampling::{sieve_body, sieve_constraint, Heuristic};
use crate::symbol::{args_view, copy_symbol, copy_symbols, show, symbol_to_string, Symbol, SymbolView};
use crate::utils::{strings_view, symbols_contain, views};

verus! {

/// Whether a heuristic picks each literal to solve under by the widest
/// remaining choice (`SieveMin`) rather than by the narrowest (`SieveMax`).
pub open spec fn widest(h: Heuristic) -> bool {
    h == Heuristic::SieveMin
}

/// Whether a candidate's count beats the best so far for the heuristic:
/// at least as many facets still open (widest) or at most as many
/// (narrowest); a later candidate wins a tie.
pub open spec fn beats(wide: bool, count: int, best: int) -> bool {
    if wide {
        count >= best
    } else {
        count <= best
    }
}

/// The literal that a scan of the candidates (a literal with the number of
/// missing atoms that stay facets under it) settles on, from the best count
/// `best` and its literal `f`: each candidate that beats the best takes its
/// place, and the scan stops at one whose count is `stop`.
pub open spec fn scan(wide: bool, cands: Seq<(i32, usize)>, best: int, f: i32, stop: int) -> i32
    decreases cands.len(),
{
    if cands.len() == 0 {
        f
    } else if beats(wide, cands[0].1 as int, best) {
        if cands[0].1 == stop {
            cands[0].0
        } else {
            scan(wide, cands.drop_first(), cands[0].1 as int, cands[0].0, stop)
        }
    } else {
        scan(wide, cands.drop_first(), best, f, stop)
    }
}

/// The literal to solve under next, for `missing` atoms still to show and
/// the literal `first` of the first of them: with at most one missing atom,
/// or for a heuristic that does not scan, `first`; `SieveMin` takes the
/// candidate that leaves the most missing atoms open (stopping at all but
/// one), `SieveMax` the one that leaves the fewest (stopping at none).
pub open spec fn picked(h: Heuristic, cands: Seq<(i32, usize)>, missing: usize, first: i32) -> i32 {
    if missing <= 1 || !(h == Heuristic::SieveMin || h == Heuristic::SieveMax) {
        first
    } else if widest(h) {
        scan(true, cands, 0, first, missing - 1)
    } else {
        scan(false, cands, missing as int, first, 0)
    }
}

/// The literal to solve under next (see `picked`); `candidates` holds, for
/// each facet's literal and its negation in turn, how many missing atoms stay
/// facets under it.
pub fn pick_literal(h: Heuristic, candidates: &[(i32, usize)], missing: usize, first: i32) -> (r: i32)
    ensures
        r == picked(h, candidates@, missing, first),
        h == Heuristic::SieveMin && missing > 1 ==> r == scan(true, candidates@, 0, first, missing - 1),
        h == Heuristic::SieveMax && missing > 1 ==> r == scan(false, candidates@, missing as int, first, 0),
        !(h == Heuristic::SieveMin || h == Heuristic::SieveMax) || missing <= 1 ==> r == first,
{
    if missing <= 1 || !(matches!(h, Heuristic::SieveMin) || matches!(h, Heuristic::SieveMax)) {
        return first;
    }
    let wide = matches!(h, Heuristic::SieveMin);
    let stop: usize = if wide { missing - 1 } else { 0 };
    let mut best: usize = if wide { 0 } else { missing };
    let mut f = first;
    let mut i: usize = 0;
    let ghost goal = picked(h, candidates@, missing, first);
    assert(goal == scan(wide, candidates@.skip(0), best as int, f, stop as int)) by {
        assert(candidates@.skip(0) =~= candidates@);
    }
    while i < candidates.len()
        invariant
            i <= candidates@.len(),
            goal == picked(h, candidates@, missing, first),
            goal == scan(wide, candidates@.skip(i as int), best as int, f, stop as int),
        decreases candidates@.len() - i,
    {
        let (l, c) = candidates[i];
        let ghost rest = candidates@.skip(i as int);
        assert(rest[0] == (l, c));
        assert(rest.drop_first() =~= candidates@.skip(i + 1));
        let better = if wide { c >= best } else { c <= best };
        assert(better == beats(wide, c as int, best as int));
        if better {
            if c == stop {
                assert(goal == scan(wide, rest, best as int, f, stop as int));
                assert(scan(wide, rest, best as int, f, stop as int) == l);
                return l;
            }
            best = c;
            f = l;
        }
        i = i + 1;
    }
    f
}

/// How many answer sets of the collection hold the atom `a`.
pub open spec fn occurrences(sets: Seq<Seq<SymbolView>>, a: SymbolView) -> nat
    decreases sets.len(),
{
    if sets.len() == 0 {
        0
    } else {
        occurrences(sets.drop_last(), a) + if sets.last().contains(a) {
            1nat
        } else {
            0nat
        }
    }
}

/// The atoms of the template that at most one answer set of the collection
/// holds, in order.
pub open spec fn rare_atoms(template: Seq<SymbolView>, sets: Seq<Seq<SymbolView>>) -> Seq<SymbolView> {
    template.filter(|a: SymbolView| occurrences(sets, a) <= 1)
}

/// What a search for a perfect sample does with a collection of answer sets.
pub enum SampleAction {
    /// The answer sets at these positions are a perfect sample: each atom of
    /// the template occurs in exactly one of them.
    Cover(Vec<usize>),
    /// There is none: the collection is to be extended by a greedy search
    /// that rules out these atoms of the template, each held by at most one
    /// answer set of the collection.
    Extend(Vec<Symbol>),
}

/// How many answer sets of `sets` hold `a`.
fn count_holding(sets: &Vec<Vec<Symbol>>, a: &Symbol) -> (r: usize)
    ensures
        r == occurrences(symbol_sets(sets@), a@),
{
    let mut n: usize = 0;
    let mut i: usize = 0;
    while i < sets.len()
        invariant
            i <= sets@.len(),
            n == occurrences(symbol_sets(sets@.take(i as int)), a@),
            n <= i,
        decreases sets@.len() - i,
    {
        proof {
            assert(symbol_sets(sets@.take(i + 1)).drop_last() =~= symbol_sets(sets@.take(i as int)));
            assert(symbol_sets(sets@.take(i + 1)).last() == views(sets@[i as int]@));
        }
        if symbols_contain(sets[i].as_slice(), a) {
            n = n + 1;
        }
        i = i + 1;
    }
    assert(sets@.take(i as int) =~= sets@);
    n
}

/// One round of the search for a perfect sample of the template: the
/// first exact cover of the template by answer sets of the collection, if
/// there is one, otherwise the atoms of the template that at most one answer
/// set holds, which the next round of collecting rules out.
pub fn perfect_sample_step(collection: &Vec<Vec<Symbol>>, template: &Vec<Symbol>) -> (r: SampleAction)
    ensures
        r matches SampleAction::Cover(sel) ==> is_exact_cover(
            sample_rows(views(template@), symbol_sets(collection@)),
            template@.len() as nat,
            sel@,
        ),
        r is Extend <==> forall|sel: Seq<usize>|
            !is_exact_cover(
                sample_rows(views(template@), symbol_sets(collection@)),
                template@.len() as nat,
                sel,
            ),
        r matches SampleAction::Extend(atoms) ==> views(atoms@) == rare_atoms(
            views(template@),
            symbol_sets(collection@),
        ),
{
    match sample_cover(collection, template) {
        Some(sel) => SampleAction::Cover(sel),
        None => {
            let ghost sets = symbol_sets(collection@);
            let ghost p = |a: SymbolView| occurrences(sets, a) <= 1;
            let mut atoms: Vec<Symbol> = Vec::new();
            let mut i: usize = 0;
            assert(views(template@).take(0).filter(p) =~= Seq::<SymbolView>::empty());
            while i < template.len()
                invariant
                    i <= template@.len(),
                    sets == symbol_sets(collection@),
                    p == (|a: SymbolView| occurrences(sets, a) <= 1),
                    views(atoms@) == views(template@).take(i as int).filter(p),
                decreases template@.len() - i,
            {
                let n = count_holding(collection, &template[i]);
                proof {
                    assert(views(template@).take(i + 1) =~= views(template@).take(i as int).push(
                        template@[i as int]@,
                    ));
                    lemma_filter_push(views(template@).take(i as int), template@[i as int]@, p);
                }
                if n <= 1 {
                    let a = copy_symbol(&template[i]);
                    atoms.push(a);
                    assert(views(atoms@) =~= views(atoms@.drop_last()).push(a@));
                }
                i = i + 1;
            }
            assert(views(template@).take(i as int) =~= views(template@));
            SampleAction::Extend(atoms)
        },
    }
}

/// Whether the heuristic extends its assumptions after each answer set by
/// ruling out the missing atoms that it holds (the diverse greedy sieves).
pub open spec fn diverse(h: Heuristic) -> bool {
    h == Heuristic::DgreedySieve || h == Heuristic::DgreedySieveMax || h
        == Heuristic::DgreedySieveMaxPlus || h == Heuristic::DgreedySieveMaxAll || h
        == Heuristic::DgreedySieveMaxPlusAll
}

/// Whether the heuristic keeps only answer sets that show a missing atom
/// (the naive ones, with or without the sieve constraint).
pub open spec fn observing(h: Heuristic) -> bool {
    h == Heuristic::Naive || h == Heuristic::NaiveSieve
}

/// Whether the answer set holds one of the missing atoms.
pub open spec fn observes(missing: Seq<SymbolView>, model: Seq<SymbolView>) -> bool {
    exists|i: int| 0 <= i < missing.len() && model.contains(#[trigger] missing[i])
}

/// The missing atoms that the answer set does not hold, in order.
pub open spec fn remaining(missing: Seq<SymbolView>, model: Seq<SymbolView>) -> Seq<SymbolView> {
    missing.filter(|a: SymbolView| !model.contains(a))
}

/// Whether a heuristic keeps (shows) the answer set: the observing ones keep
/// a new answer set that shows a missing atom, the sieves by minimal and
/// maximal choice keep every answer set, the diverse ones every new one.
pub open spec fn keeps(
    h: Heuristic,
    missing: Seq<SymbolView>,
    shown: Seq<Seq<SymbolView>>,
    model: Seq<SymbolView>,
) -> bool {
    if observing(h) {
        observes(missing, model) && !shown.contains(model)
    } else if diverse(h) {
        !shown.contains(model)
    } else {
        true
    }
}

/// Whether the answer set's atoms leave the missing ones: when it is kept,
/// and for the observing heuristics whenever it shows a missing atom.
pub open spec fn drops(
    h: Heuristic,
    missing: Seq<SymbolView>,
    shown: Seq<Seq<SymbolView>>,
    model: Seq<SymbolView>,
) -> bool {
    keeps(h, missing, shown, model) || (observing(h) && observes(missing, model))
}

/// The literals that rule out the missing atoms an answer set holds, in the
/// answer set's order (atoms the program lacks are left out).
pub open spec fn ruling_out(table: Seq<(Symbol, i32)>, model: Seq<SymbolView>, missing: Seq<SymbolView>) -> Seq<i32> {
    crate::navigator::blocking(table, model.filter(|a: SymbolView| missing.contains(a)), Seq::empty())
}

/// What a collection does with what the solver answered.
#[derive(Debug, Clone, Copy, PartialEq, Eq, Structural)]
pub enum CollectAction {
    /// Show the answer set as answer `number`; when `complete`, no target
    /// atom is missing any more and the collection stops.
    Show { number: usize, complete: bool },
    /// The answer set is not kept: go on (with the next answer set, or by
    /// solving again under the assumptions).
    Skip,
    /// The solver found no (further) answer set.
    Finished,
}

/// A collection of answer sets that is to show every target atom: the
/// atoms still missing, how often each target atom was shown, the answer
/// sets kept with their sizes, and the assumptions the diverse heuristics
/// solve under.
pub struct Collection {
    /// The atoms to show.
    pub targets: Vec<Symbol>,
    /// The target atoms not shown yet, in order.
    pub missing: Vec<Symbol>,
    /// For each target atom, in how many kept answer sets it occurs.
    pub frequencies: Vec<usize>,
    /// The answer sets kept, in order.
    pub shown: Vec<Vec<Symbol>>,
    /// The number of atoms of each kept answer set.
    pub sizes: Vec<usize>,
    /// The literals to solve under (the diverse heuristics).
    pub assumptions: Vec<i32>,
}

impl Collection {
    /// Whether the counts agree with the answer sets kept.
    pub open spec fn wf(&self) -> bool {
        &&& self.frequencies@.len() == self.targets@.len()
        &&& self.sizes@.len() == self.shown@.len()
        &&& forall|i: int|
            0 <= i < self.frequencies@.len() ==> #[trigger] self.frequencies@[i] <= self.shown@.len()
    }

    /// A collection for the target atoms: all missing, none shown, no
    /// assumptions.
    pub fn new(targets: &[Symbol]) -> (r: Collection)
        ensures
            r.wf(),
            views(r.targets@) == views(targets@),
            views(r.missing@) == views(targets@),
            r.frequencies@ == Seq::new(targets@.len(), |i: int| 0usize),
            r.shown@.len() == 0,
            r.sizes@.len() == 0,
            r.assumptions@.len() == 0,
    {
        let t = copy_symbols(targets);
        let m = copy_symbols(targets);
        proof {
            assert(views(t@) =~= args_view(t@));
            assert(views(m@) =~= args_view(m@));
            assert(views(targets@) =~= args_view(targets@));
        }
        let mut frequencies: Vec<usize> = Vec::new();
        let mut i: usize = 0;
        while i < targets.len()
            invariant
                i <= targets@.len(),
                frequencies@ == Seq::new(i as nat, |j: int| 0usize),
            decreases targets@.len() - i,
        {
            frequencies.push(0);
            assert(frequencies@ =~= Seq::new((i + 1) as nat, |j: int| 0usize));
            i = i + 1;
        }
        Collection {
            targets: t,
            missing: m,
            frequencies,
            shown: Vec::new(),
            sizes: Vec::new(),
            assumptions: Vec::new(),
        }
    }
}

/// Whether the heuristic keeps only answer sets that show a missing atom.
fn is_observing(h: Heuristic) -> (r: bool)
    ensures
        r == observing(h),
{
    match h {
        Heuristic::Naive | Heuristic::NaiveSieve => true,
        _ => false,
    }
}

/// Whether the heuristic rules out what it saw in its assumptions.
fn is_diverse(h: Heuristic) -> (r: bool)
    ensures
        r == diverse(h),
{
    match h {
        Heuristic::DgreedySieve | Heuristic::DgreedySieveMax | Heuristic::DgreedySieveMaxPlus
        | Heuristic::DgreedySieveMaxAll | Heuristic::DgreedySieveMaxPlusAll => true,
        _ => false,
    }
}

/// The missing atoms that the answer set does not hold, and whether it holds
/// any.
fn split_missing(missing: &Vec<Symbol>, model: &[Symbol]) -> (r: (Vec<Symbol>, bool))
    ensures
        views(r.0@) == remaining(views(missing@), views(model@)),
        r.1 == observes(views(missing@), views(model@)),
{
    let ghost miss = views(missing@);
    let ghost mv = views(model@);
    let ghost p = |a: SymbolView| !mv.contains(a);
    let mut rest: Vec<Symbol> = Vec::new();
    let mut seen = false;
    let mut i: usize = 0;
    assert(miss.take(0).filter(p) =~= Seq::<SymbolView>::empty());
    while i < missing.len()
        invariant
            i <= missing@.len(),
            miss == views(missing@),
            mv == views(model@),
            p == (|a: SymbolView| !mv.contains(a)),
            views(rest@) == miss.take(i as int).filter(p),
            seen == exists|j: int| 0 <= j < i && mv.contains(#[trigger] miss[j]),
        decreases missing@.len() - i,
    {
        let held = symbols_contain(model, &missing[i]);
        proof {
            assert(miss.take(i + 1) =~= miss.take(i as int).push(miss[i as int]));
            lemma_filter_push(miss.take(i as int), miss[i as int], p);
        }
        if held {
            seen = true;
        } else {
            let a = copy_symbol(&missing[i]);
            rest.push(a);
            assert(views(rest@) =~= views(rest@.drop_last()).push(a@));
        }
        i = i + 1;
    }
    assert(miss.take(i as int) =~= miss);
    (rest, seen)
}

/// Whether the answer set was kept before.
fn holds_model(shown: &Vec<Vec<Symbol>>, model: &[Symbol]) -> (r: bool)
    ensures
        r == symbol_sets(shown@).contains(views(model@)),
{
    let mut i: usize = 0;
    while i < shown.len()
        invariant
            i <= shown@.len(),
            forall|j: int| 0 <= j < i ==> #[trigger] symbol_sets(shown@)[j] != views(model@),
        decreases shown@.len() - i,
    {
        if symbols_eq(shown[i].as_slice(), model) {
            assert(symbol_sets(shown@)[i as int] == views(model@));
            return true;
        }
        i = i + 1;
    }
    false
}

/// The atoms of the answer set that are missing, in its order.
fn missing_atoms_of(model: &[Symbol], missing: &Vec<Symbol>) -> (r: Vec<Symbol>)
    ensures
        views(r@) == views(model@).filter(|a: SymbolView| views(missing@).contains(a)),
{
    let ghost mv = views(model@);
    let ghost p = |a: SymbolView| views(missing@).contains(a);
    let mut r: Vec<Symbol> = Vec::new();
    let mut i: usize = 0;
    assert(mv.take(0).filter(p) =~= Seq::<SymbolView>::empty());
    while i < model.len()
        invariant
            i <= model@.len(),
            mv == views(model@),
            p == (|a: SymbolView| views(missing@).contains(a)),
            views(r@) == mv.take(i as int).filter(p),
        decreases model@.len() - i,
    {
        proof {
            assert(mv.take(i + 1) =~= mv.take(i as int).push(mv[i as int]));
            lemma_filter_push(mv.take(i as int), mv[i as int], p);
        }
        if symbols_contain(missing.as_slice(), &model[i]) {
            let a = copy_symbol(&model[i]);
            r.push(a);
            assert(views(r@) =~= views(r@.drop_last()).push(a@));
        }
        i = i + 1;
    }
    assert(mv.take(i as int) =~= mv);
    r
}

impl Collection {
    /// The atom to solve for next: the first missing one, if any.
    pub fn next_target(&self) -> (r: Option<Symbol>)
        ensures
            r is None <==> self.missing@.len() == 0,
            r matches Some(a) ==> a@ == self.missing@[0]@,
    {
        if self.missing.len() == 0 {
            None
        } else {
            Some(copy_symbol(&self.missing[0]))
        }
    }

    /// Starts a new pass under the assumptions `start`; all else stays.
    pub fn restart(&mut self, start: Vec<i32>)
        ensures
            final(self).assumptions@ == start@,
            final(self).targets == old(self).targets,
            final(self).missing == old(self).missing,
            final(self).frequencies == old(self).frequencies,
            final(self).shown == old(self).shown,
            final(self).sizes == old(self).sizes,
    {
        self.assumptions = start;
    }

    /// The step after the solver answered with the answer set `model` (its
    /// atoms) or with none, for the heuristic `h` (see `keeps`, `drops` and
    /// `diverse`): no answer set finishes the pass; a diverse heuristic
    /// extends its assumptions by the literals that rule out the missing
    /// atoms of the answer set; a kept answer set is shown as the next answer,
    /// counted for each target atom it holds, and the collection is complete
    /// when no target atom is missing any more.
    pub fn collect_step(&mut self, h: Heuristic, nav: &Navigator, model: Option<&[Symbol]>) -> (r:
        CollectAction)
        requires
            old(self).wf(),
            negatable(nav.table()),
            old(self).shown@.len() < usize::MAX,
        ensures
            final(self).wf(),
            final(self).targets == old(self).targets,
            model is None ==> r == CollectAction::Finished && final(self).missing == old(self).missing
                && final(self).frequencies == old(self).frequencies && final(self).shown == old(self).shown
                && final(self).sizes == old(self).sizes && final(self).assumptions == old(self).assumptions,
            model is Some ==> (final(self).assumptions@ == (if diverse(h) {
                old(self).assumptions@ + ruling_out(nav.table(), views(model->0@), views(old(self).missing@))
            } else {
                old(self).assumptions@
            })),
            model is Some ==> (views(final(self).missing@) == (if drops(
                h,
                views(old(self).missing@),
                symbol_sets(old(self).shown@),
                views(model->0@),
            ) {
                remaining(views(old(self).missing@), views(model->0@))
            } else {
                views(old(self).missing@)
            })),
            model is Some ==> (keeps(h, views(old(self).missing@), symbol_sets(old(self).shown@), views(model->0@))
                <==> r is Show),
            model is Some ==> (r is Show ==> r == (CollectAction::Show {
                number: (old(self).shown@.len() + 1) as usize,
                complete: final(self).missing@.len() == 0,
            })),
            model is Some ==> (r is Show ==> symbol_sets(final(self).shown@) == symbol_sets(old(self).shown@).push(views(model->0@))
                && final(self).sizes@ == old(self).sizes@.push(model->0@.len() as usize)
                && forall|i: int| 0 <= i < old(self).targets@.len() ==> #[trigger] final(self).frequencies@[i]
                    == old(self).frequencies@[i] + if views(model->0@).contains(old(self).targets@[i]@) { 1int } else { 0int }),
            model is Some ==> (!(r is Show) ==> r == CollectAction::Skip && final(self).shown == old(self).shown
                && final(self).sizes == old(self).sizes && final(self).frequencies == old(self).frequencies),
            model is Some && (h == Heuristic::DgreedySieve || h == Heuristic::DgreedySieveMax || h
                == Heuristic::DgreedySieveMaxPlus || h == Heuristic::DgreedySieveMaxAll || h
                == Heuristic::DgreedySieveMaxPlusAll) ==> final(self).assumptions@ == old(self).assumptions@
                + ruling_out(nav.table(), views(model->0@), views(old(self).missing@)),
            (h == Heuristic::Naive || h == Heuristic::NaiveSieve || h == Heuristic::SieveMin || h
                == Heuristic::SieveMax) ==> final(self).assumptions@ == old(self).assumptions@,
            model is Some && (h == Heuristic::DgreedySieve || h == Heuristic::DgreedySieveMax || h
                == Heuristic::DgreedySieveMaxPlus || h == Heuristic::DgreedySieveMaxAll || h
                == Heuristic::DgreedySieveMaxPlusAll) ==> (r is Show <==> !symbol_sets(old(self).shown@).contains(
                views(model->0@),
            )),
            model is Some && (h == Heuristic::Naive || h == Heuristic::NaiveSieve) ==> (r is Show <==> (
            observes(views(old(self).missing@), views(model->0@)) && !symbol_sets(old(self).shown@).contains(
                views(model->0@),
            ))),
            model is Some && (h == Heuristic::SieveMin || h == Heuristic::SieveMax) ==> r is Show,
            model is Some && (r is Show || ((h == Heuristic::Naive || h == Heuristic::NaiveSieve)
                && observes(views(old(self).missing@), views(model->0@)))) ==> views(final(self).missing@)
                == views(old(self).missing@).filter(|a: SymbolView| !views(model->0@).contains(a)),
    {
        match model {
            None => CollectAction::Finished,
            Some(m) => {
                let ghost miss = views(self.missing@);
                let ghost coll = symbol_sets(self.shown@);
                let ghost mv = views(m@);
                if is_diverse(h) {
                    let kept = missing_atoms_of(m, &self.missing);
                    let none: Vec<Symbol> = Vec::new();
                    let lits = nav.blocking_literals(kept.as_slice(), none.as_slice());
                    proof {
                        assert(views(none@) =~= Seq::<SymbolView>::empty());
                    }
                    let mut k: usize = 0;
                    let ghost before = self.assumptions@;
                    while k < lits.len()
                        invariant
                            k <= lits@.len(),
                            self.assumptions@ == before + lits@.take(k as int),
                            self.targets == old(self).targets,
                            self.missing == old(self).missing,
                            self.frequencies == old(self).frequencies,
                            self.shown == old(self).shown,
                            self.sizes == old(self).sizes,
                        decreases lits@.len() - k,
                    {
                        self.assumptions.push(lits[k]);
                        assert(lits@.take(k + 1) =~= lits@.take(k as int).push(lits@[k as int]));
                        k = k + 1;
                    }
                    assert(lits@.take(k as int) =~= lits@);
                    proof {
                        let q1 = |a: SymbolView| miss.contains(a);
                        let q2 = |a: SymbolView| views(old(self).missing@).contains(a);
                        assert(q1 =~= q2);
                        assert(views(kept@) == mv.filter(q1));
                        assert(lits@ == ruling_out(nav.table(), mv, miss));
                    }
                }
                assert(self.assumptions@ == (if diverse(h) {
                    old(self).assumptions@ + ruling_out(nav.table(), mv, miss)
                } else {
                    old(self).assumptions@
                }));
                let (rest, seen) = split_missing(&self.missing, m);
                let old_one = holds_model(&self.shown, m);
                let observing_h = is_observing(h);
                let keep = if observing_h {
                    seen && !old_one
                } else if is_diverse(h) {
                    !old_one
                } else {
                    true
                };
                assert(keep == keeps(h, miss, coll, mv));
                if keep || (observing_h && seen) {
                    self.missing = rest;
                }
                assert(views(self.missing@) == (if drops(h, miss, coll, mv) {
                    remaining(miss, mv)
                } else {
                    miss
                }));
                if keep {
                    let mut i: usize = 0;
                    let ghost f0 = self.frequencies@;
                    let ghost miss1 = self.missing@;
                    let ghost as1 = self.assumptions@;
                    while i < self.targets.len()
                        invariant
                            self.frequencies@.len() == self.targets@.len(),
                            self.sizes@.len() == self.shown@.len(),
                            i <= self.targets@.len(),
                            self.targets == old(self).targets,
                            self.shown == old(self).shown,
                            self.sizes == old(self).sizes,
                            f0 == old(self).frequencies@,
                            self.missing@ == miss1,
                            self.assumptions@ == as1,
                            self.shown@.len() < usize::MAX,
                            self.frequencies@.len() == f0.len(),
                            forall|j: int| 0 <= j < i ==> #[trigger] self.frequencies@[j] == f0[j] + if mv.contains(self.targets@[j]@) { 1int } else { 0int },
                            forall|j: int| i <= j < f0.len() ==> #[trigger] self.frequencies@[j] == f0[j],
                            forall|j: int| 0 <= j < f0.len() ==> #[trigger] f0[j] <= self.shown@.len(),
                            forall|j: int| 0 <= j < f0.len() ==> #[trigger] self.frequencies@[j] <= self.shown@.len() + 1,
                            mv == views(m@),
                        decreases self.targets@.len() - i,
                    {
                        if symbols_contain(m, &self.targets[i]) {
                            let v = self.frequencies[i] + 1;
                            self.frequencies.set(i, v);
                        }
                        i = i + 1;
                    }
                    let c = copy_symbols(m);
                    proof {
                        assert(views(c@) =~= args_view(c@));
                        assert(views(m@) =~= args_view(m@));
                    }
                    self.shown.push(c);
                    self.sizes.push(m.len());
                    assert(symbol_sets(self.shown@) =~= coll.push(mv));
                    CollectAction::Show { number: self.shown.len(), complete: self.missing.len() == 0 }
                } else {
                    CollectAction::Skip
                }
            },
        }
    }
}

/// The written forms of atoms, in order.
pub open spec fn shows(atoms: Seq<SymbolView>) -> Seq<Seq<char>> {
    atoms.map_values(|a: SymbolView| show(a))
}

impl Collection {
    /// The constraint that a sieve adds to the program for the next pass:
    /// it rules out the answer sets that hold none of the missing atoms.
    pub fn missing_sieve(&self) -> (r: String)
        ensures
            r@ == sieve_body(shows(views(self.missing@))).drop_last().push('.'),
    {
        let mut words: Vec<String> = Vec::new();
        let mut i: usize = 0;
        while i < self.missing.len()
            invariant
                i <= self.missing@.len(),
                strings_view(words@) == shows(views(self.missing@)).take(i as int),
            decreases self.missing@.len() - i,
        {
            let w = symbol_to_string(&self.missing[i]);
            words.push(w);
            assert(strings_view(words@) =~= strings_view(words@.drop_last()).push(w@));
            assert(shows(views(self.missing@))[i as int] == show(self.missing@[i as int]@));
            assert(shows(views(self.missing@)).take(i + 1) =~= shows(views(self.missing@)).take(i as int).push(w@));
            assert(strings_view(words@) =~= shows(views(self.missing@)).take(i + 1));
            i = i + 1;
        }
        assert(shows(views(self.missing@)).take(i as int) =~= shows(views(self.missing@)));
        sieve_constraint(words.as_slice())
    }
}

/// Whether a diverse heuristic begins each pass by the narrowest literal
/// (the `Max` variants).
pub open spec fn narrowing(h: Heuristic) -> bool {
    h == Heuristic::DgreedySieveMax || h == Heuristic::DgreedySieveMaxPlus || h
        == Heuristic::DgreedySieveMaxAll || h == Heuristic::DgreedySieveMaxPlusAll
}

/// Whether a narrowing heuristic also counts the template atoms a literal
/// leaves false (the `Plus` variants).
pub open spec fn plus(h: Heuristic) -> bool {
    h == Heuristic::DgreedySieveMaxPlus || h == Heuristic::DgreedySieveMaxPlusAll
}

/// The score of a candidate (a literal, the number of missing atoms that
/// stay facets under it, the number of template atoms true under it, and
/// whether anything is consistent with it): the open count, and for the
/// `Plus` variants also the template atoms not true under it.
pub open spec fn score(h: Heuristic, c: (i32, usize, usize, bool), template: usize) -> int {
    if plus(h) {
        c.1 + (template - c.2)
    } else {
        c.1 as int
    }
}

/// The scan of a narrowing heuristic over its candidates, from the least
/// open count `least` and its literal `f`: a candidate that nothing is
/// consistent with ends the collection (`None`); one whose score is at most
/// `least` takes its place with its open count, and one that leaves no
/// missing atom open ends the scan.
pub open spec fn narrow_scan(
    h: Heuristic,
    cands: Seq<(i32, usize, usize, bool)>,
    least: int,
    f: i32,
    template: usize,
) -> Option<i32>
    decreases cands.len(),
{
    if cands.len() == 0 {
        Some(f)
    } else if !cands[0].3 {
        None
    } else if score(h, cands[0], template) <= least {
        if cands[0].1 == 0 {
            Some(cands[0].0)
        } else {
            narrow_scan(h, cands.drop_first(), cands[0].1 as int, cands[0].0, template)
        }
    } else {
        narrow_scan(h, cands.drop_first(), least, f, template)
    }
}

/// The assumptions a pass of a diverse heuristic begins with (`None`: the
/// collection stops, a scanned literal admits no answer set): none for
/// `DgreedySieve` and when at most one atom is missing (the sieve then asks
/// for that atom); for the narrowing variants, the literal their scan
/// settles on, starting from the literal `first` of the first missing atom.
pub open spec fn pass_start(
    h: Heuristic,
    cands: Seq<(i32, usize, usize, bool)>,
    missing: usize,
    template: usize,
    first: i32,
) -> Option<Seq<i32>> {
    if !narrowing(h) || missing <= 1 {
        Some(Seq::empty())
    } else {
        match narrow_scan(h, cands, missing as int, first, template) {
            Some(l) => Some(seq![l]),
            None => None,
        }
    }
}

/// The narrowest scan, stated without reference to a heuristic: a
/// candidate that nothing is consistent with ends the collection; one whose
/// open count (plus, when `with_false`, the template atoms it leaves false) is
/// at most `least` takes its place with its open count; one that leaves no
/// missing atom open ends the scan.
pub open spec fn narrowest(
    cands: Seq<(i32, usize, usize, bool)>,
    least: int,
    f: i32,
    template: usize,
    with_false: bool,
) -> Option<i32>
    decreases cands.len(),
{
    if cands.len() == 0 {
        Some(f)
    } else if !cands[0].3 {
        None
    } else if (if with_false {
        cands[0].1 + (template - cands[0].2)
    } else {
        cands[0].1 as int
    }) <= least {
        if cands[0].1 == 0 {
            Some(cands[0].0)
        } else {
            narrowest(cands.drop_first(), cands[0].1 as int, cands[0].0, template, with_false)
        }
    } else {
        narrowest(cands.drop_first(), least, f, template, with_false)
    }
}

/// The assumptions that a chosen literal (or none: stop) begin a pass with.
pub open spec fn as_start(l: Option<i32>) -> Option<Seq<i32>> {
    match l {
        Some(l) => Some(seq![l]),
        None => None,
    }
}

/// The value of a pass start.
pub open spec fn start_view(r: Option<Vec<i32>>) -> Option<Seq<i32>> {
    match r {
        Some(v) => Some(v@),
        None => None,
    }
}

proof fn lemma_narrow_scan_is_narrowest(
    h: Heuristic,
    cands: Seq<(i32, usize, usize, bool)>,
    least: int,
    f: i32,
    template: usize,
)
    ensures
        narrow_scan(h, cands, least, f, template) == narrowest(cands, least, f, template, plus(h)),
    decreases cands.len(),
{
    if cands.len() > 0 {
        lemma_narrow_scan_is_narrowest(h, cands.drop_first(), cands[0].1 as int, cands[0].0, template);
        lemma_narrow_scan_is_narrowest(h, cands.drop_first(), least, f, template);
    }
}

/// The diverse sieve variants that begin a pass by the narrowest literal
/// count the same candidates alike whether they scanned some atoms or all
/// facets: `DgreedySieveMaxAll` chooses as `DgreedySieveMax` does, and
/// `DgreedySieveMaxPlusAll` as `DgreedySieveMaxPlus` does, and the plain
/// sieve and the other heuristics begin with no assumptions.
pub proof fn lemma_pass_start_variants(
    cands: Seq<(i32, usize, usize, bool)>,
    missing: usize,
    template: usize,
    first: i32,
)
    ensures
        pass_start(Heuristic::DgreedySieveMaxAll, cands, missing, template, first) == pass_start(
            Heuristic::DgreedySieveMax,
            cands,
            missing,
            template,
            first,
        ),
        pass_start(Heuristic::DgreedySieveMaxPlusAll, cands, missing, template, first) == pass_start(
            Heuristic::DgreedySieveMaxPlus,
            cands,
            missing,
            template,
            first,
        ),
        missing > 1 ==> pass_start(Heuristic::DgreedySieveMaxPlus, cands, missing, template, first)
            == as_start(narrowest(cands, missing as int, first, template, true)),
        missing > 1 ==> pass_start(Heuristic::DgreedySieveMax, cands, missing, template, first)
            == as_start(narrowest(cands, missing as int, first, template, false)),
        pass_start(Heuristic::DgreedySieve, cands, missing, template, first) == Some(Seq::<i32>::empty()),
{
    lemma_narrow_scan_is_narrowest(Heuristic::DgreedySieveMaxAll, cands, missing as int, first, template);
    lemma_narrow_scan_is_narrowest(Heuristic::DgreedySieveMax, cands, missing as int, first, template);
    lemma_narrow_scan_is_narrowest(Heuristic::DgreedySieveMaxPlusAll, cands, missing as int, first, template);
    lemma_narrow_scan_is_narrowest(Heuristic::DgreedySieveMaxPlus, cands, missing as int, first, template);
}

/// When every candidate holds all template atoms, counting the atoms left
/// false changes nothing: the `Plus` variants then begin a pass as the plain
/// ones do.
pub proof fn lemma_plus_without_false_atoms(
    cands: Seq<(i32, usize, usize, bool)>,
    least: int,
    f: i32,
    template: usize,
)
    requires
        forall|i: int| 0 <= i < cands.len() ==> #[trigger] cands[i].2 == template,
    ensures
        narrowest(cands, least, f, template, true) == narrowest(cands, least, f, template, false),
    decreases cands.len(),
{
    if cands.len() > 0 {
        assert(cands[0].2 == template);
        assert forall|i: int| 0 <= i < cands.drop_first().len() implies #[trigger] cands.drop_first()[i].2 == template by {
            assert(cands.drop_first()[i] == cands[i + 1]);
        }
        lemma_plus_without_false_atoms(cands.drop_first(), cands[0].1 as int, cands[0].0, template);
        lemma_plus_without_false_atoms(cands.drop_first(), least, f, template);
    }
}

/// The assumptions a pass of the diverse heuristic `h` begins with (see
/// `pass_start`); `candidates` holds, for each literal scanned and in
/// turn, the number of missing atoms that stay facets under it, the number of
/// template atoms true under it and whether an answer set is consistent with
/// it.
pub fn diverse_start(
    h: Heuristic,
    candidates: &[(i32, usize, usize, bool)],
    missing: usize,
    template: usize,
    first: i32,
) -> (r: Option<Vec<i32>>)
    requires
        plus(h) ==> forall|i: int| 0 <= i < candidates@.len() ==> #[trigger] candidates@[i].2 <= template,
    ensures
        r matches Some(v) ==> pass_start(h, candidates@, missing, template, first) == Some(v@),
        r is None <==> pass_start(h, candidates@, missing, template, first) is None,
        (h == Heuristic::DgreedySieveMaxPlus || h == Heuristic::DgreedySieveMaxPlusAll) && missing > 1
            ==> start_view(r) == as_start(narrowest(candidates@, missing as int, first, template, true)),
        (h == Heuristic::DgreedySieveMax || h == Heuristic::DgreedySieveMaxAll) && missing > 1
            ==> start_view(r) == as_start(narrowest(candidates@, missing as int, first, template, false)),
        (h == Heuristic::DgreedySieve || h == Heuristic::Naive || h == Heuristic::NaiveSieve || h
            == Heuristic::SieveMin || h == Heuristic::SieveMax || missing <= 1) ==> start_view(r)
            == Some(Seq::<i32>::empty()),
{
    let r = diverse_start_scan(h, candidates, missing, template, first);
    proof {
        lemma_narrow_scan_is_narrowest(h, candidates@, missing as int, first, template);
        if r is Some {
            assert(start_view(r) == pass_start(h, candidates@, missing, template, first));
        }
    }
    r
}

/// The scan behind `diverse_start`.
fn diverse_start_scan(
    h: Heuristic,
    candidates: &[(i32, usize, usize, bool)],
    missing: usize,
    template: usize,
    first: i32,
) -> (r: Option<Vec<i32>>)
    requires
        plus(h) ==> forall|i: int| 0 <= i < candidates@.len() ==> #[trigger] candidates@[i].2 <= template,
    ensures
        r matches Some(v) ==> pass_start(h, candidates@, missing, template, first) == Some(v@),
        r is None <==> pass_start(h, candidates@, missing, template, first) is None,
{
    let narrow = match h {
        Heuristic::DgreedySieveMax | Heuristic::DgreedySieveMaxPlus | Heuristic::DgreedySieveMaxAll
        | Heuristic::DgreedySieveMaxPlusAll => true,
        _ => false,
    };
    if !narrow || missing <= 1 {
        return Some(Vec::new());
    }
    let with_false = match h {
        Heuristic::DgreedySieveMaxPlus | Heuristic::DgreedySieveMaxPlusAll => true,
        _ => false,
    };
    let mut least: usize = missing;
    let mut f = first;
    let mut i: usize = 0;
    let ghost goal = narrow_scan(h, candidates@, missing as int, first, template);
    assert(candidates@.skip(0) =~= candidates@);
    while i < candidates.len()
        invariant
            i <= candidates@.len(),
            narrow == narrowing(h),
            with_false == plus(h),
            plus(h) ==> forall|k: int| 0 <= k < candidates@.len() ==> #[trigger] candidates@[k].2 <= template,
            goal == narrow_scan(h, candidates@, missing as int, first, template),
            goal == narrow_scan(h, candidates@.skip(i as int), least as int, f, template),
            pass_start(h, candidates@, missing, template, first) == match goal {
                Some(l) => Some(seq![l]),
                None => None::<Seq<i32>>,
            },
        decreases candidates@.len() - i,
    {
        let (l, open, held, consistent) = candidates[i];
        let ghost rest = candidates@.skip(i as int);
        assert(rest[0] == (l, open, held, consistent));
        assert(rest.drop_first() =~= candidates@.skip(i + 1));
        if !consistent {
            return None;
        }
        let better = if with_false {
            assert(candidates@[i as int].2 <= template);
            (open as u128) + ((template - held) as u128) <= (least as u128)
        } else {
            open <= least
        };
        assert(better == (score(h, rest[0], template) <= least));
        if better {
            if open == 0 {
                let mut v: Vec<i32> = Vec::new();
                v.push(l);
                assert(v@ =~= seq![l]);
                return Some(v);
            }
            least = open;
            f = l;
        }
        i = i + 1;
    }
    let mut v: Vec<i32> = Vec::new();
    v.push(f);
    assert(v@ =~= seq![f]);
    Some(v)
}

/// What a collection does after a step.
#[derive(Debug, Clone, Copy, PartialEq, Eq, Structural)]
pub enum CollectPlan {
    /// Take the next answer set of the same solving.
    NextAnswer,
    /// Solve again in the same pass (under the next target or the extended
    /// assumptions).
    SolveAgain,
    /// Begin a new pass, with a sieve for the atoms still missing.
    NewPass,
    /// The collection is over.
    Stop,
}

/// The plan after the step that gave `action` under the heuristic `h`:
/// a complete collection stops; after a shown answer set the scanning sieves
/// begin a new pass and the others solve again; a skipped answer set leads
/// the observing heuristics to the next answer set of the same solving and
/// the others to solve again; when the solver finds nothing, the diverse
/// heuristics begin a new pass and the others stop.
pub open spec fn plan_of(h: Heuristic, action: CollectAction) -> CollectPlan {
    match action {
        CollectAction::Show { number, complete } => if complete {
            CollectPlan::Stop
        } else if h == Heuristic::SieveMin || h == Heuristic::SieveMax {
            CollectPlan::NewPass
        } else {
            CollectPlan::SolveAgain
        },
        CollectAction::Skip => if observing(h) {
            CollectPlan::NextAnswer
        } else {
            CollectPlan::SolveAgain
        },
        CollectAction::Finished => if diverse(h) {
            CollectPlan::NewPass
        } else {
            CollectPlan::Stop
        },
    }
}

/// The plan after a step (see `plan_of`).
pub fn plan(h: Heuristic, action: CollectAction) -> (r: CollectPlan)
    ensures
        r == plan_of(h, action),
        action matches CollectAction::Show { complete, .. } && complete ==> r == CollectPlan::Stop,
        (h == Heuristic::SieveMin || h == Heuristic::SieveMax) && (action matches CollectAction::Show {
            complete,
            ..
        } && !complete) ==> r == CollectPlan::NewPass,
        (h == Heuristic::Naive || h == Heuristic::NaiveSieve || h == Heuristic::DgreedySieve || h
            == Heuristic::DgreedySieveMax || h == Heuristic::DgreedySieveMaxPlus || h
            == Heuristic::DgreedySieveMaxAll || h == Heuristic::DgreedySieveMaxPlusAll) && (
        action matches CollectAction::Show { complete, .. } && !complete) ==> r == CollectPlan::SolveAgain,
        (h == Heuristic::Naive || h == Heuristic::NaiveSieve) && action == CollectAction::Skip ==> r
            == CollectPlan::NextAnswer,
        !(h == Heuristic::Naive || h == Heuristic::NaiveSieve) && action == CollectAction::Skip ==> r
            == CollectPlan::SolveAgain,
        (h == Heuristic::DgreedySieve || h == Heuristic::DgreedySieveMax || h
            == Heuristic::DgreedySieveMaxPlus || h == Heuristic::DgreedySieveMaxAll || h
            == Heuristic::DgreedySieveMaxPlusAll) && action == CollectAction::Finished ==> r
            == CollectPlan::NewPass,
        (h == Heuristic::Naive || h == Heuristic::NaiveSieve || h == Heuristic::SieveMin || h
            == Heuristic::SieveMax) && action == CollectAction::Finished ==> r == CollectPlan::Stop,
{
    match action {
        CollectAction::Show { number, complete } => if complete {
            CollectPlan::Stop
        } else if matches!(h, Heuristic::SieveMin) || matches!(h, Heuristic::SieveMax) {
            CollectPlan::NewPass
        } else {
            CollectPlan::SolveAgain
        },
        CollectAction::Skip => if is_observing(h) {
            CollectPlan::NextAnswer
        } else {
            CollectPlan::SolveAgain
        },
        CollectAction::Finished => if is_diverse(h) {
            CollectPlan::NewPass
        } else {
            CollectPlan::Stop
        },
    }
}

} // verus!

verus! {

/// Heuristics of one family plan alike: the two scanning sieves begin a new
/// pass after each answer set short of completion, the five diverse sieves
/// solve again under their extended assumptions and begin a new pass when
/// nothing more is found, and the two observing heuristics go on to the next
/// answer set of the same solving after one that shows nothing new.
pub proof fn lemma_plans_by_family(action: CollectAction)
    ensures
        plan_of(Heuristic::SieveMin, action) == plan_of(Heuristic::SieveMax, action),
        plan_of(Heuristic::Naive, action) == plan_of(Heuristic::NaiveSieve, action),
        plan_of(Heuristic::DgreedySieve, action) == plan_of(Heuristic::DgreedySieveMax, action),
        plan_of(Heuristic::DgreedySieve, action) == plan_of(Heuristic::DgreedySieveMaxPlus, action),
        plan_of(Heuristic::DgreedySieve, action) == plan_of(Heuristic::DgreedySieveMaxAll, action),
        plan_of(Heuristic::DgreedySieve, action) == plan_of(Heuristic::DgreedySieveMaxPlusAll, action),
        (action matches CollectAction::Show { complete, .. } && !complete) ==> plan_of(
            Heuristic::SieveMax,
            action,
        ) == CollectPlan::NewPass && plan_of(Heuristic::DgreedySieveMaxAll, action) == CollectPlan::SolveAgain,
        action == CollectAction::Finished ==> plan_of(Heuristic::DgreedySieveMaxAll, action)
            == CollectPlan::NewPass && plan_of(Heuristic::SieveMax, action) == CollectPlan::Stop,
        action == CollectAction::Skip ==> plan_of(Heuristic::NaiveSieve, action) == CollectPlan::NextAnswer
            && plan_of(Heuristic::DgreedySieveMaxAll, action) == CollectPlan::SolveAgain,
{
}

/// The five diverse sieves keep the same answer sets and rule out the same
/// literals: after any answer set, each keeps it exactly when it is new, and
/// each drops the missing atoms it holds.
pub proof fn lemma_diverse_sieves_alike(
    missing: Seq<SymbolView>,
    shown: Seq<Seq<SymbolView>>,
    model: Seq<SymbolView>,
)
    ensures
        diverse(Heuristic::DgreedySieve) && diverse(Heuristic::DgreedySieveMax) && diverse(
            Heuristic::DgreedySieveMaxPlus,
        ) && diverse(Heuristic::DgreedySieveMaxAll) && diverse(Heuristic::DgreedySieveMaxPlusAll),
        !diverse(Heuristic::Naive) && !diverse(Heuristic::NaiveSieve) && !diverse(Heuristic::SieveMin)
            && !diverse(Heuristic::SieveMax),
        keeps(Heuristic::DgreedySieveMaxAll, missing, shown, model) == !shown.contains(model),
        keeps(Heuristic::DgreedySieveMaxPlusAll, missing, shown, model) == !shown.contains(model),
        keeps(Heuristic::DgreedySieve, missing, shown, model) == !shown.contains(model),
        keeps(Heuristic::SieveMax, missing, shown, model),
        keeps(Heuristic::Naive, missing, shown, model) == (observes(missing, model) && !shown.contains(model)),
{
}

} // verus!
