use fasb::cache::Cache;
use fasb::collect::{
    diverse_start, perfect_sample_step, pick_literal, plan, CollectAction, CollectPlan, Collection,
    SampleAction,
};
use fasb::navigator::{Mode, Weight};
use fasb::sampling::{GreedySearch, SearchStep};
use fasb::navigator::{walk_step, Navigator, WalkStep};
use fasb::sampling::Heuristic;
use fasb::symbol::Symbol;
use fasb::utils::{Facets, Repr, Route};

fn id(s: &str) -> Symbol {
    Symbol::create_id(s, true)
}

fn ids(xs: &[&str]) -> Vec<Symbol> {
    xs.iter().map(|x| id(x)).collect()
}

/// A navigation of `a;b. c;d :- b. e.` with solver literals 1 to 5.
fn pi_1() -> Navigator {
    Navigator::new(
        "a;b. c;d :- b. e.".to_owned(),
        0,
        vec![(id("a"), 1), (id("b"), 2), (id("c"), 3), (id("d"), 4), (id("e"), 5)],
        ids(&["a", "b", "c", "d", "e"]),
        ids(&["e"]),
    )
}

fn strings(xs: &[&str]) -> Vec<String> {
    xs.iter().map(|x| x.to_string()).collect()
}

#[test]
fn pick_literal_widest_and_narrowest() {
    let cands = [(1, 2), (-1, 3), (2, 3), (-2, 1)];
    // the widest choice: the last of the highest counts, before reaching all but one
    assert_eq!(pick_literal(Heuristic::SieveMin, &cands, 5, 9), 2);
    // stops at all but one missing
    assert_eq!(pick_literal(Heuristic::SieveMin, &cands, 4, 9), -1);
    // the narrowest choice: the last of the lowest counts
    assert_eq!(pick_literal(Heuristic::SieveMax, &cands, 5, 9), -2);
    // stops at a candidate that leaves nothing open
    assert_eq!(pick_literal(Heuristic::SieveMax, &[(1, 0), (2, 0)], 5, 9), 1);
    // one missing atom, or a heuristic that does not scan: the first literal
    assert_eq!(pick_literal(Heuristic::SieveMin, &cands, 1, 9), 9);
    assert_eq!(pick_literal(Heuristic::Naive, &cands, 5, 9), 9);
    // nothing beats the start of a narrowest scan above the missing count
    assert_eq!(pick_literal(Heuristic::SieveMax, &[(1, 7)], 5, 9), 9);
}

#[test]
fn perfect_sample_found_and_missing() {
    let template = ids(&["a", "b", "c"]);
    let collection = vec![ids(&["a", "b"]), ids(&["c"]), ids(&["b", "c"])];
    match perfect_sample_step(&collection, &template) {
        SampleAction::Cover(sel) => assert_eq!(sel, vec![0, 1]),
        SampleAction::Extend(_) => panic!("a cover exists"),
    }
    let collection = vec![ids(&["a", "b"]), ids(&["b", "c"])];
    match perfect_sample_step(&collection, &template) {
        SampleAction::Cover(_) => panic!("no cover exists"),
        SampleAction::Extend(atoms) => {
            let names: Vec<String> = atoms.iter().map(|a| a.repr()).collect();
            assert_eq!(names, strings(&["a", "c"]));
        }
    }
}

#[test]
fn naive_collection_observes_targets() {
    let nav = pi_1();
    let mut c = Collection::new(&ids(&["a", "c", "d"]));
    assert_eq!(c.next_target(), Some(id("a")));
    assert_eq!(c.missing_sieve(), ":- not a, not c, not d.");
    let m1 = ids(&["a", "e"]);
    assert_eq!(
        c.collect_step(Heuristic::Naive, &nav, Some(&m1)),
        CollectAction::Show { number: 1, complete: false }
    );
    assert_eq!(c.next_target(), Some(id("c")));
    // the same answer set again shows nothing new
    assert_eq!(c.collect_step(Heuristic::Naive, &nav, Some(&m1)), CollectAction::Skip);
    let m2 = ids(&["b", "c", "e"]);
    assert_eq!(
        c.collect_step(Heuristic::Naive, &nav, Some(&m2)),
        CollectAction::Show { number: 2, complete: false }
    );
    let m3 = ids(&["b", "d", "e"]);
    assert_eq!(
        c.collect_step(Heuristic::Naive, &nav, Some(&m3)),
        CollectAction::Show { number: 3, complete: true }
    );
    assert_eq!(c.next_target(), None);
    assert_eq!(c.frequencies, vec![1, 1, 1]);
    assert_eq!(c.sizes, vec![2, 3, 3]);
    assert!(c.assumptions.is_empty());
    assert_eq!(c.collect_step(Heuristic::Naive, &nav, None), CollectAction::Finished);
}

#[test]
fn diverse_collection_rules_out_what_it_saw() {
    let nav = pi_1();
    let mut c = Collection::new(&ids(&["a", "b", "c"]));
    let m1 = ids(&["b", "c", "e"]);
    assert_eq!(
        c.collect_step(Heuristic::DgreedySieve, &nav, Some(&m1)),
        CollectAction::Show { number: 1, complete: false }
    );
    // b and c were missing: their literals are ruled out, e is no target
    assert_eq!(c.assumptions, vec![-2, -3]);
    // a repeated answer set is not shown again, but still extends nothing new
    assert_eq!(c.collect_step(Heuristic::DgreedySieve, &nav, Some(&m1)), CollectAction::Skip);
    assert_eq!(c.assumptions, vec![-2, -3]);
    let m2 = ids(&["a", "e"]);
    assert_eq!(
        c.collect_step(Heuristic::DgreedySieve, &nav, Some(&m2)),
        CollectAction::Show { number: 2, complete: true }
    );
    assert_eq!(c.assumptions, vec![-2, -3, -1]);
    c.restart(vec![]);
    assert!(c.assumptions.is_empty());
    c.restart(vec![4]);
    assert_eq!(c.assumptions, vec![4]);
    assert_eq!(c.frequencies, vec![1, 1, 1]);
}

#[test]
fn sieve_collection_keeps_every_answer_set() {
    let nav = pi_1();
    let mut c = Collection::new(&ids(&["a", "c"]));
    let m = ids(&["a", "e"]);
    assert_eq!(
        c.collect_step(Heuristic::SieveMax, &nav, Some(&m)),
        CollectAction::Show { number: 1, complete: false }
    );
    assert_eq!(
        c.collect_step(Heuristic::SieveMax, &nav, Some(&m)),
        CollectAction::Show { number: 2, complete: false }
    );
    assert_eq!(c.frequencies, vec![2, 0]);
    assert_eq!(c.missing_sieve(), ":- not c.");
}

#[test]
fn activation_and_consequences() {
    let mut nav = pi_1();
    let facets = strings(&["b", "x"]);
    let lits = nav.activation_literals(&facets);
    assert_eq!(lits, vec![2]);
    // the consequences under [2]: answer sets {b,c,e} and {b,d,e}
    let errors = nav.activate_with(&facets, ids(&["b", "c", "d", "e"]), ids(&["b", "e"]));
    assert_eq!(errors.len(), 1);
    assert_eq!(nav.active_facets, lits);
    let mut current = nav.current_facets.to_strings();
    current.sort();
    assert_eq!(current, strings(&["c", "d"]));

    let more = strings(&["c"]);
    nav.activate(&more);
    let lits = nav.deactivation_literals(&ids(&["b"]));
    assert_eq!(lits, vec![3]);
    nav.deactivate_with(&ids(&["b"]), ids(&["b", "c", "e"]), ids(&["b", "c", "e"]));
    assert_eq!(nav.active_facets, lits);
    assert_eq!(nav.route, Route(strings(&["c"])));
    assert_eq!(nav.current_facets, Facets(vec![]));
}

#[test]
fn maximal_safety_steps_use_the_queried_route() {
    let nav = pi_1();
    let steps = nav.step_assumptions(&Route(strings(&["b"])), &strings(&["c", "~d", "y"]));
    assert_eq!(steps, vec![vec![2, 3], vec![2, -4], vec![2]]);
}

#[test]
fn walk_steps() {
    let offered = strings(&["a", "b", "c"]);
    assert_eq!(walk_step(true, 0, None, &offered, 1), WalkStep::Stop);
    assert_eq!(walk_step(false, 2, Some(2), &offered, 1), WalkStep::Stop);
    assert_eq!(walk_step(false, 1, Some(2), &offered, 4), WalkStep::Activate("b".to_owned()));
    assert_eq!(walk_step(false, 0, None, &vec![], 0), WalkStep::Stuck);
}

#[test]
fn diverse_pass_starts() {
    let cands = [(1, 2, 0, true), (-1, 2, 0, true), (2, 1, 3, true), (-2, 1, 3, true)];
    // the plain sieve begins with no assumptions, as does a single missing atom
    assert_eq!(diverse_start(Heuristic::DgreedySieve, &cands, 3, 4, 9), Some(vec![]));
    assert_eq!(diverse_start(Heuristic::DgreedySieveMax, &cands, 1, 4, 9), Some(vec![]));
    // the narrowest literal, a later one winning a tie
    assert_eq!(diverse_start(Heuristic::DgreedySieveMax, &cands, 3, 4, 9), Some(vec![-2]));
    // with the template atoms left false added: 2 + 4 > 3 twice, then 1 + 1 <= 3
    // takes the literal 2 with its open count 1, and 1 + 1 > 1 keeps it
    assert_eq!(diverse_start(Heuristic::DgreedySieveMaxPlus, &cands, 3, 4, 9), Some(vec![2]));
    assert_eq!(
        diverse_start(Heuristic::DgreedySieveMaxPlus, &[(1, 0, 4, true), (2, 0, 4, true)], 3, 4, 9),
        Some(vec![1])
    );
    // a literal with no answer set ends the collection
    assert_eq!(diverse_start(Heuristic::DgreedySieveMaxAll, &[(1, 1, 0, false)], 3, 4, 9), None);
    // a scan that stops at a literal leaving nothing open
    assert_eq!(
        diverse_start(Heuristic::DgreedySieveMax, &[(1, 0, 0, true), (5, 0, 0, false)], 3, 4, 9),
        Some(vec![1])
    );
}

#[test]
fn collection_plans() {
    let shown = CollectAction::Show { number: 1, complete: false };
    let done = CollectAction::Show { number: 2, complete: true };
    assert_eq!(plan(Heuristic::Naive, done), CollectPlan::Stop);
    assert_eq!(plan(Heuristic::Naive, shown), CollectPlan::SolveAgain);
    assert_eq!(plan(Heuristic::SieveMin, shown), CollectPlan::NewPass);
    assert_eq!(plan(Heuristic::DgreedySieve, shown), CollectPlan::SolveAgain);
    assert_eq!(plan(Heuristic::NaiveSieve, CollectAction::Skip), CollectPlan::NextAnswer);
    assert_eq!(plan(Heuristic::DgreedySieveMax, CollectAction::Skip), CollectPlan::SolveAgain);
    assert_eq!(plan(Heuristic::DgreedySieveMax, CollectAction::Finished), CollectPlan::NewPass);
    assert_eq!(plan(Heuristic::SieveMax, CollectAction::Finished), CollectPlan::Stop);
}

#[test]
fn assisting_search_stops_when_nothing_new() {
    let nav = pi_1();
    let mut search = GreedySearch::new(vec![], 0);
    let e = ids(&["e"]);
    let m1 = ids(&["a", "e"]);
    // the first answer set is taken even when only ignored atoms are new
    assert_eq!(search.assist_step(&nav, Some(&m1), &e), SearchStep::Show { number: 1, last: false });
    assert_eq!(search.seed, vec![-1]);
    // a later one that rules out nothing ends the search, nothing changed
    assert_eq!(search.assist_step(&nav, Some(&e), &e), SearchStep::Finished { unsatisfiable: false });
    assert_eq!(search.seed, vec![-1]);
    assert_eq!(search.found, 1);
    let m2 = ids(&["b", "c", "e"]);
    assert_eq!(search.assist_step(&nav, Some(&m2), &e), SearchStep::Show { number: 2, last: false });
    assert_eq!(search.seed, vec![-1, -2, -3]);
}

#[test]
fn routes_with_the_same_letters_keep_their_own_facets() {
    let mut cache = Cache::new(10);
    let mode = Mode::StrictlyGoalOriented(Weight::FacetCounting);
    let joined = Route(strings(&["ab"]));
    let split = Route(strings(&["a", "b"]));
    let first = mode.filter(&mut cache, &joined, &[("x".to_owned(), 3), ("y".to_owned(), 1)]);
    assert_eq!(first, strings(&["x"]));
    assert_eq!(mode.cached(&mut cache, &split), None);
    let second = mode.filter(&mut cache, &split, &[("x".to_owned(), 1), ("y".to_owned(), 5)]);
    assert_eq!(second, strings(&["y"]));
    assert_eq!(mode.cached(&mut cache, &joined), Some(strings(&["x"])));
}

#[test]
fn deactivation_keeps_literals_in_place() {
    let mut nav = pi_1();
    nav.activate(&strings(&["b", "c", "b", "~d"]));
    assert_eq!(nav.active_facets, vec![2, 3, 2, -4]);
    nav.deactivate_any(&ids(&["b"]));
    assert_eq!(nav.route, Route(strings(&["c", "~d"])));
    assert_eq!(nav.active_facets, vec![3, -4]);
    // clearing an empty route leaves the navigation as it is
    let mut empty = pi_1();
    assert!(!empty.clear_route());
    assert_eq!(empty.route, Route(vec![]));
    assert_eq!(empty.n, 0);
}

#[test]
fn deactivation_counts_every_occurrence() {
    let mut route = Route(strings(&["a", "b", "a", "c", "a"]));
    let positions = route.deactivate_any("a".to_owned());
    assert_eq!(positions.len(), 3);
    assert_eq!(positions, vec![0, 1, 2]);
    assert_eq!(route, Route(strings(&["b", "c"])));
}
