use fasb::symbol::{symbol_to_string, Symbol};
use fasb::translator::Atom;
use fasb::utils::{Facets, Repr, ToHashSet, ToSymbol};
use rand::distributions::Alphanumeric;
use rand::Rng;

fn random_text(max: usize) -> String {
    rand::thread_rng()
        .sample_iter(&Alphanumeric)
        .take(rand::thread_rng().gen_range(1..max))
        .map(char::from)
        .collect::<String>()
}

fn starts_numeric_or_upper(s: &str) -> bool {
    s.chars().next().map(char::is_numeric).unwrap_or(false)
        || s.chars().next().map(char::is_uppercase).unwrap_or(false)
}

#[test]
fn repr() {
    assert_eq!(Symbol::create_id("a", true).repr(), "a");
    assert_eq!(Symbol::create_id("a", false).repr(), "-a");
}

#[test]
fn exclusive_repr() {
    assert_eq!(Symbol::create_id("a", true).exclusive_repr(), "~a");
    assert_eq!(Symbol::create_id("a", false).exclusive_repr(), "~-a");
}

#[test]
fn to_hashset() {
    let v0 = (97..123u8)
        .map(|u| Symbol::create_id((u as char).to_string().as_ref(), true))
        .collect::<Vec<Symbol>>();
    let v1 = (97..123u8)
        .map(|u| Symbol::create_id((u as char).to_string().as_ref(), false))
        .collect::<Vec<Symbol>>();

    assert_eq!(v0.difference(&v0), vec![]);
    let mut a: Vec<String> = v0.difference(&v1).to_hashset().iter().map(|s| s.repr()).collect();
    let mut b: Vec<String> = v0.to_hashset().iter().map(|s| s.repr()).collect();
    a.sort();
    b.sort();
    assert_eq!(a, b);
}

#[test]
fn to_strings() {
    let facets = Facets(
        (97u8..123)
            .map(|c| (c as char).to_string().symbol())
            .collect::<Vec<Symbol>>(),
    );
    let facets_as_strings = facets.to_strings();
    assert_eq!(
        facets_as_strings,
        (97u8..123)
            .map(|c| (c as char).to_string())
            .collect::<Vec<String>>()
    );
}

#[test]
fn is_empty_len() {
    let facets = Facets(vec![]);
    assert!(facets.is_empty());
    assert_eq!(facets.len(), 0);
}

#[test]
fn symbol() {
    let random_constant = random_text(100);

    let sym = Symbol::create_id(&random_constant, true);
    assert_eq!(random_constant.symbol(), sym);

    let sym = Symbol::create_id(&random_constant, false);
    assert_eq!(format!("-{}", random_constant).symbol(), sym);
}

#[test]
fn as_negative_symbol() {
    let random_constant = random_text(100);

    let sym = Symbol::create_id(&random_constant, false);
    assert_eq!(random_constant.as_negative_symbol(), sym);
}

#[test]
fn positive_constant() {
    let random_constant = random_text(100);

    let atom = Atom(random_constant.as_ref());
    match starts_numeric_or_upper(&random_constant) {
        true => assert!(atom.parse(&['~']).is_none()),
        _ => {
            assert!(atom.parse(&[]).is_some());
            assert_eq!(
                Symbol::create_id(random_constant.as_ref(), true),
                atom.parse(&[]).unwrap()
            );
        }
    }
}

#[test]
fn negative_constant() {
    let random_constant = random_text(100);
    let s = format!("~{}", random_constant.clone());

    let atom = Atom(s.as_ref());

    match starts_numeric_or_upper(&random_constant) {
        true => assert!(atom.parse(&['~']).is_none()),
        _ => {
            assert!(atom.parse(&['~']).is_some());
            assert_eq!(
                Symbol::create_id(random_constant.as_ref(), false),
                atom.parse(&['~']).unwrap()
            );
        }
    }
}

#[test]
fn arity_3() {
    let random_name = random_text(3);
    let random_string = format!("\"{}\"", random_text(10));
    let random_constant = random_text(100);
    let random_int = rand::thread_rng().gen::<i32>().to_string();

    let p = format!(
        "{}({}, {}, {})",
        random_name, random_constant, random_string, random_int
    );
    println!("{}", p);

    let atom = Atom(p.as_ref());
    match starts_numeric_or_upper(&random_name) || starts_numeric_or_upper(&random_constant) {
        true => assert!(atom.parse(&[]).is_none()),
        _ => {
            assert!(atom.parse(&[]).is_some());
            println!("{}", symbol_to_string(&atom.parse(&[]).unwrap()));
        }
    };
}

#[test]
fn parse_function_with_arguments() {
    let sym = Atom("set_obj_cell(1,2)").parse(&[]).unwrap();
    assert_eq!(
        sym,
        Symbol::create_function(
            "set_obj_cell",
            &[Symbol::create_number(1), Symbol::create_number(2)],
            true
        )
    );
    assert_eq!(symbol_to_string(&sym), "set_obj_cell(1,2)");
    let neg = Atom(" ~p(a,\"s\",-3)").parse(&['~']).unwrap();
    assert_eq!(symbol_to_string(&neg), "-p(a,\"s\",-3)");
    // white space after a comma stays part of the argument
    assert_eq!(
        Atom("p(1, 2)").parse(&[]).unwrap(),
        Symbol::create_function("p", &[Symbol::create_number(1), Symbol::create_id(" 2", true)], true)
    );
    assert!(Atom("p(1 ,2)").parse(&[]).is_none());
    assert!(Atom("Upper").parse(&[]).is_none());
    assert!(Atom("p(").parse(&[]).is_none());
}

#[test]
fn symbol_strings() {
    assert_eq!(symbol_to_string(&Symbol::Infimum), "#inf");
    assert_eq!(symbol_to_string(&Symbol::Supremum), "#sup");
    assert_eq!(symbol_to_string(&Symbol::create_number(-12)), "-12");
    assert_eq!(symbol_to_string(&Symbol::create_string("a\"b")), "\"a\\\"b\"");
    let tuple = Symbol::create_function("", &[Symbol::create_number(1), Symbol::create_id("x", true)], true);
    assert_eq!(symbol_to_string(&tuple), "(1,x)");
}

#[test]
fn facets_render() {
    let facets = Facets(vec![Symbol::create_id("a", true), Symbol::create_id("b", true)]);
    assert_eq!(facets.render(), "\na ~a b ~b \n");
}
