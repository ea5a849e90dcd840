use fasb::cache::Cache;
use fasb::sampling::{GreedySearch, SearchStep};
use fasb::navigator::{
    answer_limit, next_answer, route_maximal_safe, shown_models, AnswerStep,
    Mode, Navigator, NavigatorError, Weight,
};
use fasb::filter::{absolute_data, candidates, facet_counting_data, rank};
use fasb::symbol::Symbol;
use fasb::utils::{Facets, Repr, Route};

const PI_1: &str = "a;b. c;d :- b. e.";

fn id(s: &str) -> Symbol {
    Symbol::create_id(s, true)
}

fn fun(name: &str, args: &[i32]) -> Symbol {
    let args: Vec<Symbol> = args.iter().map(|n| Symbol::create_number(*n)).collect();
    Symbol::create_function(name, &args, true)
}

/// The atoms of `a;b. c;d :- b. e.` with solver literals 1 to 5.
fn pi_1_atoms() -> Vec<(Symbol, i32)> {
    vec![(id("a"), 1), (id("b"), 2), (id("c"), 3), (id("d"), 4), (id("e"), 5)]
}

/// A navigation of `a;b. c;d :- b. e.`: its answer sets are {a,e}, {b,c,e}
/// and {b,d,e}, so `a`..`e` are brave and `e` is cautious.
fn pi_1() -> Navigator {
    Navigator::new(
        PI_1.to_owned(),
        0,
        pi_1_atoms(),
        vec![id("a"), id("b"), id("c"), id("d"), id("e")],
        vec![id("e")],
    )
}

/// Some atoms of a grid program with solver literals.
fn grid() -> Navigator {
    Navigator::new(
        "grid".to_owned(),
        0,
        vec![(fun("obj", &[1]), 1), (fun("cell", &[1]), 2), (fun("set_obj_cell", &[1, 1]), 3)],
        vec![fun("set_obj_cell", &[1, 1])],
        vec![],
    )
}

fn sorted(mut v: Vec<String>) -> Vec<String> {
    v.sort();
    v
}

#[test]
fn navigator_new() {
    let nav = pi_1();
    assert_eq!(nav.initial_facets.len(), 4);
    assert_eq!(nav.initial_facets, nav.current_facets);
    assert_eq!(nav.route, Route(vec![]));
    assert!(nav.active_facets.is_empty());
}

#[test]
fn literal() {
    let nav = grid();

    assert!(nav.literal("obj(1)").is_ok());
    assert!(nav.literal("cell(1)").is_ok());
    assert!(nav.literal("set_obj_cell(1,1)").is_ok());

    assert!(nav.literal("ojb(1)").is_err());
    assert!(nav.literal("clel(1)").is_err());
    assert!(nav.literal("set_obj_cell(1, 1)").is_err());

    assert!(nav.literal(" obj(1)").is_ok());
    assert!(nav.literal("cell(1) ").is_ok());
    assert!(nav.literal(" set_obj_cell(1,1)").is_ok());
}

#[test]
fn literal_values() {
    let nav = grid();
    assert_eq!(nav.literal("cell(1)"), Ok(2));
    assert_eq!(nav.literal("~cell(1)"), Ok(-2));
    assert_eq!(
        nav.literal("cell(2)"),
        Err(NavigatorError::InvalidInput("cell(2)".to_owned()))
    );
    assert_eq!(
        nav.parse_input_to_literals(&["~obj(1)".to_owned(), "x".to_owned(), "set_obj_cell(1,1)".to_owned()]),
        vec![-1, 3]
    );
}

#[test]
fn inclusive_facets() {
    let nav = pi_1();
    assert_eq!(
        sorted(nav.current_facets.to_strings()),
        vec!["a".to_owned(), "b".to_owned(), "c".to_owned(), "d".to_owned()]
    );
    // under `a` the only answer set is {a,e}: nothing is left open
    assert_eq!(fasb::navigator::inclusive_facets(vec![id("a"), id("e")], vec![id("a"), id("e")]), Facets(vec![]));
    // under `~a`: {b,c,e} and {b,d,e}
    let f = fasb::navigator::inclusive_facets(
        vec![id("b"), id("c"), id("d"), id("e")],
        vec![id("b"), id("e")],
    );
    assert_eq!(sorted(f.to_strings()), vec!["c".to_owned(), "d".to_owned()]);
    // without cautious consequences the brave ones are the facets as they are
    let g = fasb::navigator::inclusive_facets(vec![id("x"), id("x")], vec![]);
    assert_eq!(g.len(), 2);
}

#[test]
fn activate_deactivate() {
    let mut nav = grid();

    let errors = nav.activate(&["bla".to_owned()]);
    assert_eq!(errors, vec![NavigatorError::InvalidInput("bla".to_owned())]);
    nav.deactivate_any(&[Symbol::create_id("bla", true)]);
    assert_eq!(nav.active_facets, vec![]);

    nav.activate(&["set_obj_cell(1, 1)".to_owned()]);
    assert_eq!(nav.active_facets, vec![]);

    let sym0 = fun("obj", &[1]).repr();
    nav.activate(&[sym0.clone()]);
    assert_eq!(nav.active_facets, vec![1]);
    assert_eq!(nav.route, Route(vec![sym0.clone()]));

    let sym1 = fun("set_obj_cell", &[1, 1]).repr();
    nav.activate(&[sym1.clone(), sym1.clone(), sym1.clone()]);
    assert_eq!(nav.active_facets, vec![1, 3, 3, 3]);
    nav.deactivate_any(&[Symbol::create_id(&sym1.clone(), true)]);
    assert_eq!(nav.active_facets, vec![1]);
    assert_eq!(nav.route, Route(vec![sym0.clone()]));

    let sym2 = format!("~{}", fun("cell", &[1]).repr());
    nav.activate(&[sym2.clone()]);
    assert_eq!(nav.active_facets, vec![1, -2]);
    assert_eq!(nav.route, Route(vec![sym0.clone(), sym2.clone()]));
    let dsym2 = || Symbol::create_id(&sym2.clone(), true);
    nav.deactivate_any(&[dsym2(), dsym2(), dsym2()]);
    assert_eq!(nav.active_facets, vec![1]);
    assert_eq!(nav.route, Route(vec![sym0.clone()]));
    nav.deactivate_any(&[Symbol::create_id(&sym0.clone(), true)]);
    assert_eq!(nav.active_facets, vec![]);
    assert_eq!(nav.route, Route(vec![]));

    let mut nav = pi_1();
    nav.activate(&[
        "a".to_owned(),
        "b".to_owned(),
        "c".to_owned(),
        "d".to_owned(),
        "e".to_owned(),
        "~a".to_owned(),
        "~b".to_owned(),
        "~c".to_owned(),
        "~d".to_owned(),
        "~e".to_owned(),
    ]);
    let mut lits = nav.active_facets.clone();
    lits.sort();
    lits.dedup();
    assert_eq!(lits, vec![-5, -4, -3, -2, -1, 1, 2, 3, 4, 5]);
    assert!(nav.clear_route());
    assert!(!nav.clear_route());
    assert_eq!(nav.route, Route(vec![]));
}

#[test]
fn peek_assumptions_and_update() {
    let mut nav = pi_1();
    nav.activate(&["~a".to_owned()]);
    assert_eq!(nav.peek_assumptions("c"), vec![-1, 3]);
    nav.update(vec![id("b"), id("c"), id("d"), id("e")], vec![id("b"), id("e")]);
    assert_eq!(sorted(nav.current_facets.to_strings()), vec!["c".to_owned(), "d".to_owned()]);
    assert_eq!(nav.initial_facets.len(), 4);
}

/// With the answer sets of `a;b. c;d :- b. e.`: facet-counting weights
/// count each ruled-out facet twice, absolute weights count answer sets.
#[test]
fn eval_weight_t() {
    let count = 4; // current facets
    // facets left under a, ~b, c, d: none; under b: c and d; under ~c, ~d: three
    assert_eq!(Weight::FacetCounting.weigh(count, 0), (count * 2, None));
    assert_eq!(Weight::FacetCounting.weigh(count, 2), (4, None));
    assert_eq!(Weight::FacetCounting.weigh(count, 3), (2, None));

    // three answer sets; under a, ~b, c, d one; under b, ~c, ~d two
    assert_eq!(Weight::Absolute.weigh(3, 1), (2, Some(1)));
    assert_eq!(Weight::Absolute.weigh(3, 2), (1, Some(2)));
}

fn pi_1_facets() -> Facets {
    Facets(vec![id("a"), id("b"), id("c"), id("d")])
}

/// Weights of the candidates a, ~a, b, ~b, c, ~c, d, ~d for facet counting:
/// the facets left under each of them.
fn pi_1_fc_data() -> Vec<(String, usize)> {
    facet_counting_data(&pi_1_facets(), 4, &[0, 2, 2, 0, 0, 3, 0, 3])
}

/// Weights for absolute counting: answer sets with a, b, c, d.
fn pi_1_abs_data() -> Vec<(String, usize)> {
    absolute_data(&pi_1_facets(), 3, &[1, 2, 1, 1])
}

#[test]
fn filter_t() {
    let mut cache = Cache::new(1_000);
    let route = Route(vec![]);

    let filtered0 = Mode::GoalOriented(Weight::FacetCounting).filter(&mut cache, &route, &pi_1_fc_data());
    assert_eq!(filtered0.len(), 0);

    let filtered0 =
        Mode::StrictlyGoalOriented(Weight::FacetCounting).filter(&mut cache, &route, &pi_1_fc_data());
    assert_eq!(
        sorted(filtered0),
        sorted(vec!["a".to_owned(), "~b".to_owned(), "c".to_owned(), "d".to_owned()])
    );
    let filtered = Mode::Explore(Weight::FacetCounting).filter(&mut cache, &route, &pi_1_fc_data());
    assert_eq!(sorted(filtered), sorted(vec!["~c".to_owned(), "~d".to_owned()]));

    let filtered = Mode::GoalOriented(Weight::Absolute).filter(&mut cache, &route, &pi_1_abs_data());
    assert_eq!(filtered.len(), 0);

    let filtered =
        Mode::StrictlyGoalOriented(Weight::Absolute).filter(&mut cache, &route, &pi_1_abs_data());
    assert_eq!(
        sorted(filtered),
        sorted(vec!["a".to_owned(), "~b".to_owned(), "c".to_owned(), "d".to_owned()])
    );

    let filtered = Mode::Explore(Weight::Absolute).filter(&mut cache, &route, &pi_1_abs_data());
    assert_eq!(
        sorted(filtered),
        sorted(vec!["b".to_owned(), "~c".to_owned(), "~d".to_owned(), "~a".to_owned()])
    );
}

#[test]
fn filter_remembers_per_route() {
    let mut cache = Cache::new(10);
    let route = Route(vec!["~a".to_owned()]);
    let mode = Mode::StrictlyGoalOriented(Weight::FacetCounting);
    assert_eq!(mode.cached(&mut cache, &route), None);
    let first = mode.filter(&mut cache, &route, &[("c".to_owned(), 1), ("d".to_owned(), 2)]);
    assert_eq!(first, vec!["d".to_owned()]);
    assert_eq!(mode.cached(&mut cache, &route), Some(vec!["d".to_owned()]));
    // a remembered route is answered from the cache, whatever the data
    let again = mode.filter(&mut cache, &route, &[("c".to_owned(), 5)]);
    assert_eq!(again, vec!["d".to_owned()]);
    // other modes keep their own caches
    assert_eq!(Mode::Explore(Weight::FacetCounting).cached(&mut cache, &route), None);
    assert_eq!(Mode::GoalOriented(Weight::Absolute).cached(&mut cache, &route), None);
    // a cache of capacity zero remembers nothing
    let mut none = Cache::new(0);
    mode.filter(&mut none, &route, &[("c".to_owned(), 1)]);
    assert_eq!(mode.cached(&mut none, &route), None);
}

#[test]
fn candidates_and_weights() {
    let facets = Facets(vec![id("p"), fun("q", &[2])]);
    assert_eq!(
        candidates(&facets),
        vec!["p".to_owned(), "~p".to_owned(), "q(2)".to_owned(), "~q(2)".to_owned()]
    );
    assert_eq!(
        absolute_data(&facets, 10, &[3, 10]),
        vec![
            ("p".to_owned(), 7),
            ("~p".to_owned(), 3),
            ("q(2)".to_owned(), 0),
            ("~q(2)".to_owned(), 10)
        ]
    );
    assert_eq!(
        facet_counting_data(&facets, 5, &[5, 1, 0, 2]),
        vec![
            ("p".to_owned(), 0),
            ("~p".to_owned(), 4),
            ("q(2)".to_owned(), 5),
            ("~q(2)".to_owned(), 3)
        ]
    );
    let data = vec![("x".to_owned(), 2), ("y".to_owned(), 5), ("z".to_owned(), 5), ("w".to_owned(), 1)];
    assert_eq!(rank(&data, true), vec!["y".to_owned(), "z".to_owned()]);
    assert_eq!(rank(&data, false), vec!["w".to_owned()]);
}

#[test]
fn current_route_is_maximal_safe() {
    // < a ~b ~c ~d >: satisfiable, and no facet is left under it
    assert!(route_maximal_safe(true, &[]));
    // < ~c e >: facets a, b and d are left, and each can be added
    assert!(!route_maximal_safe(true, &[true, true, true]));
    // an unsatisfiable route is never maximal safe
    assert!(!route_maximal_safe(false, &[]));
    assert!(route_maximal_safe(true, &[false, false]));
}

#[test]
fn answers_listing() {
    let m1 = || vec![id("a"), id("e")];
    let m2 = || vec![id("b"), id("c"), id("e")];
    assert_eq!(shown_models(&[m1(), m2(), m1(), m2()]), vec![0, 1, 3]);
    assert_eq!(shown_models(&[]), Vec::<usize>::new());
    assert_eq!(next_answer(&m1(), 2, &m1(), 5), AnswerStep::Repeat);
    assert_eq!(next_answer(&m1(), 3, &m1(), 5), AnswerStep::Show);
    assert_eq!(next_answer(&m1(), 5, &m2(), 5), AnswerStep::ShowLast);
    assert_eq!(next_answer(&[], 1, &m2(), 5), AnswerStep::Show);
    assert_eq!(answer_limit(Some(0), 3), None);
    assert_eq!(answer_limit(Some(7), 3), Some(7));
    assert_eq!(answer_limit(None, 3), Some(3));
}

#[test]
fn mode_names() {
    assert_eq!(Mode::GoalOriented(Weight::FacetCounting).describe(), "facet-counting goal-oriented mode");
    assert_eq!(Mode::StrictlyGoalOriented(Weight::Absolute).describe(), "absolute strictly-goal-oriented mode");
    assert_eq!(Mode::Explore(Weight::Absolute).describe(), "absolute explore mode");
    assert_eq!(Mode::Io(7).describe(), "io mode 7");
    assert_eq!(Mode::Explore(Weight::Absolute).ranking(), Some(false));
    assert_eq!(Mode::GoalOriented(Weight::Absolute).ranking(), None);
}

#[test]
fn blocking_literals_of_answer_sets() {
    let nav = pi_1();
    // {b,c,e} with e ignored: b and c are ruled out; x is no atom
    assert_eq!(nav.blocking_literals(&[id("b"), id("x"), id("c"), id("e")], &[id("e")]), vec![-2, -3]);
    assert_eq!(nav.blocking_literals(&[], &[]), Vec::<i32>::new());
}

#[test]
fn greedy_search_steps() {
    let nav = pi_1();
    let mut search = GreedySearch::new(vec![], 2);
    assert_eq!(
        search.step(&nav, Some(&[id("a"), id("e")]), &[id("e")]),
        SearchStep::Show { number: 1, last: false }
    );
    assert_eq!(search.seed, vec![-1]);
    assert_eq!(
        search.step(&nav, Some(&[id("b"), id("c"), id("e")]), &[id("e")]),
        SearchStep::Show { number: 2, last: true }
    );
    assert_eq!(search.seed, vec![-1, -2, -3]);
    assert_eq!(search.step(&nav, None, &[]), SearchStep::Finished { unsatisfiable: false });
    assert_eq!(search.step(&nav, Some(&[]), &[]), SearchStep::Finished { unsatisfiable: false });

    let mut none = GreedySearch::new(vec![5], 0);
    assert_eq!(none.step(&nav, None, &[]), SearchStep::Finished { unsatisfiable: true });
    assert_eq!(none.seed, vec![5]);
}
