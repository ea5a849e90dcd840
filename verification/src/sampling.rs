//! Searches for samples of answer sets that represent a program: the
//! heuristics, and the steps of a greedy search that, after each answer set
//! it finds, rules out its atoms for the next one.
use vstd::prelude::*;

use crate::navigator::{blocking, negatable, Navigator};
use crate::symbol::{Symbol, SymbolView};
use crate::text::{push_char, push_str, str_chars};
use crate::utils::{strings_view, views};

verus! {

/// The heuristics that the search for representative samples of answer
/// sets can follow.
#[derive(Debug, Clone, Copy, PartialEq, Eq, Structural)]
pub enum Heuristic {
    Naive,
    SieveMin,
    SieveMax,
    NaiveSieve,
    DgreedySieve,
    DgreedySieveMax,
    DgreedySieveMaxPlus,
    DgreedySieveMaxAll,
    DgreedySieveMaxPlusAll,
}

/// What a greedy search does with what the solver found.
#[derive(Debug, Clone, Copy, PartialEq, Eq, Structural)]
pub enum SearchStep {
    /// Show the answer set as answer `number`; stop after it when
    /// `last`.
    Show { number: usize, last: bool },
    /// Stop: no (further) answer set; `unsatisfiable` when none was found
    /// at all.
    Finished { unsatisfiable: bool },
}

/// A greedy search for diverse answer sets: the assumptions to solve under
/// next, how many answer sets it found, and how many it looks for (0: as
/// many as there are).
pub struct GreedySearch {
    /// The literals to solve under next.
    pub seed: Vec<i32>,
    /// The answer sets found so far.
    pub found: usize,
    /// How many to find; 0 for no bound.
    pub limit: usize,
}

/// Whether the solver found an answer set with atoms.
pub open spec fn holds_atoms(model: Option<&[Symbol]>) -> bool {
    match model {
        Some(m) => m@.len() > 0,
        None => false,
    }
}

/// The end of a search.
pub open spec fn finished(unsatisfiable: bool) -> SearchStep {
    SearchStep::Finished { unsatisfiable }
}

/// The showing of answer `number`, the last one when `last`.
pub open spec fn shown(number: usize, last: bool) -> SearchStep {
    SearchStep::Show { number, last }
}

impl GreedySearch {
    /// A search under the literals `seed` for `limit` answer sets (0: no
    /// bound).
    pub fn new(seed: Vec<i32>, limit: usize) -> (r: GreedySearch)
        ensures
            r.seed@ == seed@,
            r.found == 0,
            r.limit == limit,
    {
        GreedySearch { seed, found: 0, limit }
    }

    /// The step after the solver, under the seed, found the answer set
    /// `model` (its atoms) or none: none ends the search, as does an answer
    /// set without atoms; otherwise it is shown, and its atoms other than the
    /// `ignored` ones are ruled out for the next answer set.
    pub fn step(&mut self, nav: &Navigator, model: Option<&[Symbol]>, ignored: &[Symbol]) -> (r:
        SearchStep)
        requires
            negatable(nav.table()),
            old(self).found < usize::MAX,
        ensures
            final(self).limit == old(self).limit,
            model is None ==> r == finished(old(self).found == 0),
            !holds_atoms(model) ==> final(self).seed@ == old(self).seed@,
            !holds_atoms(model) ==> final(self).found == old(self).found,
            (model is Some && !holds_atoms(model)) ==> r == finished(false),
            holds_atoms(model) ==> r == shown(
                (old(self).found + 1) as usize,
                old(self).limit > 0 && old(self).found + 1 == old(self).limit,
            ),
            holds_atoms(model) ==> final(self).seed@ == old(self).seed@ + blocking(
                nav.table(),
                views(model->0@),
                views(ignored@),
            ),
            holds_atoms(model) ==> final(self).found == old(self).found + 1,
    {
        match model {
            None => SearchStep::Finished { unsatisfiable: self.found == 0 },
            Some(m) => {
                if m.len() == 0 {
                    return SearchStep::Finished { unsatisfiable: false };
                }
                let ruled_out = nav.blocking_literals(m, ignored);
                let mut k: usize = 0;
                let ghost before = self.seed@;
                while k < ruled_out.len()
                    invariant
                        k <= ruled_out@.len(),
                        self.seed@ == before + ruled_out@.take(k as int),
                        self.found == old(self).found,
                        self.limit == old(self).limit,
                    decreases ruled_out@.len() - k,
                {
                    self.seed.push(ruled_out[k]);
                    assert(ruled_out@.take(k + 1) =~= ruled_out@.take(k as int).push(ruled_out@[k as int]));
                    k = k + 1;
                }
                assert(ruled_out@.take(k as int) =~= ruled_out@);
                self.found = self.found + 1;
                SearchStep::Show { number: self.found, last: self.limit > 0 && self.found == self.limit }
            },
        }
    }
}

/// Whether an answer set after the first rules out nothing new: every atom
/// it holds is ignored or unknown to the program.
pub open spec fn rules_out_nothing(table: Seq<(Symbol, i32)>, found: usize, model: Option<&[Symbol]>, ignored: Seq<SymbolView>) -> bool {
    holds_atoms(model) && found > 0 && blocking(table, views(model->0@), ignored).len() == 0
}

impl GreedySearch {
    /// The step of a greedy search that assists a collection: as `step`,
    /// except that it also ends, with nothing changed, at an answer set after
    /// the first that rules out nothing new.
    pub fn assist_step(&mut self, nav: &Navigator, model: Option<&[Symbol]>, ignored: &[Symbol]) -> (r:
        SearchStep)
        requires
            negatable(nav.table()),
            old(self).found < usize::MAX,
        ensures
            final(self).limit == old(self).limit,
            rules_out_nothing(nav.table(), old(self).found, model, views(ignored@)) ==> r == finished(false)
                && final(self).seed@ == old(self).seed@ && final(self).found == old(self).found,
            !rules_out_nothing(nav.table(), old(self).found, model, views(ignored@)) ==> (
                (model is None ==> r == finished(old(self).found == 0))
                && (!holds_atoms(model) ==> final(self).seed@ == old(self).seed@ && final(self).found == old(self).found)
                && ((model is Some && !holds_atoms(model)) ==> r == finished(false))
                && (holds_atoms(model) ==> r == shown(
                    (old(self).found + 1) as usize,
                    old(self).limit > 0 && old(self).found + 1 == old(self).limit,
                ) && final(self).seed@ == old(self).seed@ + blocking(
                    nav.table(),
                    views(model->0@),
                    views(ignored@),
                ) && final(self).found == old(self).found + 1)),
    {
        match model {
            Some(m) => {
                if m.len() > 0 && self.found > 0 {
                    let b = nav.blocking_literals(m, ignored);
                    if b.len() == 0 {
                        return SearchStep::Finished { unsatisfiable: false };
                    }
                }
            },
            None => {},
        }
        self.step(nav, model, ignored)
    }
}

/// The body `:- not a1, not a2, ...,` that rules out answer sets holding
/// none of the atoms.
pub open spec fn sieve_body(atoms: Seq<Seq<char>>) -> Seq<char>
    decreases atoms.len(),
{
    if atoms.len() == 0 {
        seq![':', '-']
    } else {
        sieve_body(atoms.drop_last()) + " not "@ + atoms.last() + seq![',']
    }
}

/// The constraint that rules out the answer sets that hold none of the
/// target atoms: `:- not a1, not a2.` (with no atoms, `:.`), added to a
/// program so that every answer set meets a target.
pub fn sieve_constraint(atoms: &[String]) -> (r: String)
    ensures
        r@ == sieve_body(strings_view(atoms@)).drop_last().push('.'),
{
    let mut body = String::new();
    push_char(&mut body, ':');
    push_char(&mut body, '-');
    assert(body@ =~= sieve_body(strings_view(atoms@.take(0))));
    let mut i: usize = 0;
    while i < atoms.len()
        invariant
            i <= atoms@.len(),
            body@ == sieve_body(strings_view(atoms@.take(i as int))),
        decreases atoms@.len() - i,
    {
        push_str(&mut body, " not ");
        push_str(&mut body, atoms[i].as_str());
        push_char(&mut body, ',');
        proof {
            reveal_strlit(" not ");
            let w = strings_view(atoms@.take(i + 1));
            assert(w.drop_last() =~= strings_view(atoms@.take(i as int)));
            assert(w.last() == atoms@[i as int]@);
            assert(body@ =~= sieve_body(w));
        }
        i = i + 1;
    }
    assert(atoms@.take(atoms@.len() as int) =~= atoms@);
    let v = str_chars(body.as_str());
    let mut r = crate::text::subrange_to_string(v.as_slice(), 0, v.len() - 1);
    push_char(&mut r, '.');
    assert(v@.subrange(0, v@.len() - 1) =~= body@.drop_last());
    r
}

} // verus!
