use fasb::commands::{
    command_of, parse_args, parse_mode, range_symbols, range_targets, route_query, Command,
    RouteQuery,
};
use fasb::navigator::{Mode, Weight};
use fasb::sampling::sieve_constraint;
use fasb::symbol::Symbol;
use fasb::utils::Route;

fn words(s: &str) -> Vec<String> {
    s.split_whitespace().map(|w| w.to_owned()).collect()
}

#[test]
fn parse_mode_defaults_and_pairs() {
    assert_eq!(parse_mode((None, None)), Some(Mode::GoalOriented(Weight::FacetCounting)));
    assert_eq!(parse_mode((Some("--go"), None)), Some(Mode::GoalOriented(Weight::FacetCounting)));
    assert_eq!(
        parse_mode((Some("--goal-oriented"), Some("--facet-counting"))),
        Some(Mode::GoalOriented(Weight::FacetCounting))
    );
    assert_eq!(parse_mode((Some("--goal-oriented"), Some("--fc"))), Some(Mode::GoalOriented(Weight::FacetCounting)));
    assert_eq!(parse_mode((Some("--go"), Some("--facet-counting"))), Some(Mode::GoalOriented(Weight::FacetCounting)));
    assert_eq!(
        parse_mode((Some("--strictly-goal-oriented"), None)),
        Some(Mode::StrictlyGoalOriented(Weight::FacetCounting))
    );
    assert_eq!(parse_mode((Some("--absolute"), None)), Some(Mode::GoalOriented(Weight::Absolute)));
    assert_eq!(parse_mode((Some("--facet-counting"), None)), Some(Mode::GoalOriented(Weight::FacetCounting)));
    assert_eq!(parse_mode((Some("--explore"), Some("--absolute"))), Some(Mode::Explore(Weight::Absolute)));
    assert_eq!(parse_mode((Some("--goal-oriented"), Some("--facet--counting"))), None);
    assert_eq!(parse_mode((Some("--abs"), Some("--go"))), None);
    assert_eq!(parse_mode((Some("--go"), Some("--abs"))), Some(Mode::GoalOriented(Weight::Absolute)));
    assert_eq!(parse_mode((Some("--abs"), None)), Some(Mode::GoalOriented(Weight::Absolute)));
    assert_eq!(
        parse_mode((Some("--sgo"), Some("--absolute"))),
        Some(Mode::StrictlyGoalOriented(Weight::Absolute))
    );
    assert_eq!(parse_mode((Some("--sgo"), None)), Some(Mode::StrictlyGoalOriented(Weight::FacetCounting)));
    assert_eq!(
        parse_mode((Some("--strictly-goal-oriented"), Some("--fc"))),
        Some(Mode::StrictlyGoalOriented(Weight::FacetCounting))
    );
    assert_eq!(parse_mode((Some("--expl"), Some("--abs"))), Some(Mode::Explore(Weight::Absolute)));
    assert_eq!(parse_mode((Some("--explore"), None)), Some(Mode::Explore(Weight::FacetCounting)));
    assert_eq!(parse_mode((Some("--expl"), None)), Some(Mode::Explore(Weight::FacetCounting)));
    assert_eq!(parse_mode((Some("--!"), Some("--12"))), Some(Mode::Io(12)));
    assert_eq!(parse_mode((Some("--go"), Some("--U"))), Some(Mode::GoalOriented(Weight::Information)));
    assert_eq!(parse_mode((Some("--sgo"), Some("--U"))), Some(Mode::StrictlyGoalOriented(Weight::Information)));
    assert_eq!(parse_mode((Some("--expl"), Some("--U"))), Some(Mode::Explore(Weight::Information)));
    assert_eq!(parse_mode((Some("--fast"), None)), None);
    assert_eq!(parse_mode((None, Some("--abs"))), None);
}

#[test]
fn parse_args_mode_and_count() {
    assert_eq!(parse_args(vec![]), Some((Mode::GoalOriented(Weight::FacetCounting), 3)));
    assert_eq!(
        parse_args(words("--sgo --abs --n=5")),
        Some((Mode::StrictlyGoalOriented(Weight::Absolute), 5))
    );
    assert_eq!(
        parse_args(words("--n=7 --expl")),
        Some((Mode::Explore(Weight::FacetCounting), 7))
    );
    // a count word without a number keeps the default
    assert_eq!(parse_args(words("--n=x")), Some((Mode::GoalOriented(Weight::FacetCounting), 3)));
    // the first count word decides
    assert_eq!(parse_args(words("--n=1 --n=2")), Some((Mode::GoalOriented(Weight::FacetCounting), 1)));
    assert_eq!(parse_args(words("--what")), None);
}

#[test]
fn route_queries() {
    let route = Route(vec!["a".to_owned()]);
    assert!(matches!(route_query(&route, &[]), RouteQuery::Current));
    match route_query(&route, &words("<b c >")) {
        RouteQuery::Given(fs) => assert_eq!(fs, vec!["c".to_owned(), "b".to_owned()]),
        _ => panic!("a written route"),
    }
    match route_query(&route, &words("< b >")) {
        RouteQuery::Given(fs) => assert_eq!(fs, vec!["b".to_owned()]),
        _ => panic!("a written route"),
    }
    match route_query(&route, &words("+ b ~c")) {
        RouteQuery::Extended(r) => {
            assert_eq!(r, Route(vec!["a".to_owned(), "b".to_owned(), "~c".to_owned()]))
        }
        _ => panic!("an extended route"),
    }
    match route_query(&route, &words("b")) {
        RouteQuery::Invalid(w) => assert_eq!(w, "b"),
        _ => panic!("an invalid query"),
    }
}

#[test]
fn facet_ranges() {
    assert_eq!(
        range_targets(&words("* p 3 1")),
        vec!["p(1)".to_owned(), "p(2)".to_owned(), "p(3)".to_owned()]
    );
    // parentheses in the name are left out
    assert_eq!(range_targets(&words("* (p) 0")), vec!["p(0)".to_owned()]);
    assert_eq!(range_targets(&words("*~ q 1")), vec!["~q(0)".to_owned(), "~q(1)".to_owned()]);
    assert_eq!(
        range_targets(&words("r* in(_,b,_) 2 2")),
        vec!["in(2,b,2)".to_owned()]
    );
    assert_eq!(range_targets(&words("r*~ x_ 10 9")), vec!["~x9".to_owned(), "~x10".to_owned()]);
    // a lower bound without a number counts from 0; one above the upper bound gives nothing
    assert_eq!(range_targets(&words("* p 1 z")), vec!["p(0)".to_owned(), "p(1)".to_owned()]);
    assert_eq!(range_targets(&words("* p 1 5")), Vec::<String>::new());
    assert_eq!(
        range_symbols(&words("*~ p 0")),
        vec![Symbol::create_id("~p(0)", true)]
    );
}

#[test]
fn commands() {
    assert_eq!(command_of(":a"), Some(Command::Activate));
    assert_eq!(command_of("--activate"), Some(Command::Activate));
    assert_eq!(command_of("?rms"), Some(Command::RouteMaximalSafe));
    assert_eq!(command_of(":q"), Some(Command::Quit));
    assert_eq!(command_of(":m"), Some(Command::ShowMode));
    assert_eq!(command_of("?nn"), None);
    assert_eq!(command_of(":nn"), Some(Command::NavigateN));
    assert_eq!(command_of("bla"), None);
}

#[test]
fn sieve_constraints() {
    assert_eq!(sieve_constraint(&["a".to_owned(), "p(1)".to_owned()]), ":- not a, not p(1).");
    assert_eq!(sieve_constraint(&[]), ":.");
}
