use fasb::utils::{opposite_facet, Route};

fn letters() -> Vec<String> {
    (97u8..123).map(|c| (c as char).to_string()).collect::<Vec<String>>()
}

#[test]
fn activate() {
    let chars = letters();
    let mut route = Route(chars.iter().map(|s| s.to_owned()).collect());

    assert_eq!(route.len(), 26);

    assert!(route.contains("a"));
    route.activate("a".to_owned());
    assert!(route.contains("a"));
    assert_eq!(route.len(), 27);

    route.activate("ä".to_owned());
    assert!(route.contains("ä"));
    assert_eq!(route.len(), 28);
}

#[test]
fn deactivate_contains_len() {
    let chars = letters();
    let mut route = Route(chars.iter().map(|s| s.to_owned()).collect());

    assert_eq!(route.len(), 26);

    assert!(!route.contains("ä"));
    let dae = route.deactivate_first("ä".to_owned());
    assert!(dae.is_none());
    assert!(!route.contains("ä"));

    assert!(route.contains("a"));
    let dae = route.deactivate_first("a".to_owned());
    assert!(dae.is_some());
    dae.unwrap();
    assert!(!route.contains("a"));

    assert!(route.contains("b"));
    route.deactivate_first_by_position(0);
    assert!(!route.contains("b"));

    let mut chars_clone = chars.clone();
    for _ in 0..3 {
        chars_clone.push("a".to_string())
    }
    route = Route(chars_clone.iter().map(|s| s.to_owned()).collect());

    assert_eq!(route.len(), 29);
    route.deactivate_any("a".to_owned());
    assert!(!route.contains("a"));
    assert_eq!(route.len(), 25);
}

#[test]
fn peek_step() {
    let chars = letters();
    let route = Route(chars.iter().map(|s| s.to_owned()).collect());

    let peek_route = route.peek_step("ä");
    assert!(peek_route.contains("ä"));

    assert!(route != peek_route);
}

#[test]
fn peek_steps() {
    let chars = letters();
    let route = Route(chars.iter().map(|s| s.to_owned()).collect());

    let peek_route = route.peek_steps(&["ä", "ü", "ö"]);
    assert!(peek_route.contains("ä"));
    assert!(peek_route.contains("ü"));
    assert!(peek_route.contains("ö"));

    assert!(route != peek_route);
}

#[test]
fn string_from_route() {
    let chars = letters();
    let route = Route(chars.iter().map(|s| s.to_owned()).collect());

    let string_from_route = String::from(route);
    assert_eq!(
        string_from_route,
        chars
            .iter()
            .map(|s| s.chars().next().unwrap_or('\0') as char)
            .collect::<String>()
    );
}

#[test]
fn deactivate_first_reports_position() {
    let mut route = Route(vec!["a".to_owned(), "b".to_owned(), "a".to_owned()]);
    assert_eq!(route.deactivate_first("a".to_owned()), Some(0));
    assert_eq!(route, Route(vec!["b".to_owned(), "a".to_owned()]));
    assert_eq!(route.deactivate_first("a".to_owned()), Some(1));
    assert_eq!(route, Route(vec!["b".to_owned()]));
}

#[test]
fn deactivate_any_reports_positions() {
    let mut route = Route(vec![
        "a".to_owned(),
        "b".to_owned(),
        "a".to_owned(),
        "c".to_owned(),
        "a".to_owned(),
    ]);
    let positions = route.deactivate_any("a".to_owned());
    assert_eq!(positions, vec![0, 1, 2]);
    assert_eq!(route, Route(vec!["b".to_owned(), "c".to_owned()]));
}

#[test]
fn activate_then_deactivate_gives_route_back() {
    let mut route = Route(vec!["x".to_owned(), "~y".to_owned()]);
    let before = route.clone();
    route.activate("z".to_owned());
    assert_eq!(route.deactivate_first("z".to_owned()), Some(2));
    assert_eq!(route, before);
    route.activate("z".to_owned());
    route.deactivate_any("z".to_owned());
    assert_eq!(route, before);
}

#[test]
fn render_and_concat() {
    let route = Route(vec!["a".to_owned(), "~b(1)".to_owned()]);
    assert_eq!(route.render(), "< a ~b(1) >");
    assert_eq!(route.concat(), "a~b(1)");
    assert_eq!(Route(vec![]).render(), "< >");
}

#[test]
fn peek_leaves_route_alone() {
    let route = Route(vec!["a".to_owned()]);
    let peeked = route.peek_steps(&["b", "c"]);
    assert_eq!(route, Route(vec!["a".to_owned()]));
    assert_eq!(peeked, Route(vec!["a".to_owned(), "b".to_owned(), "c".to_owned()]));
    assert_eq!(route.peek_step("d").len(), 2);
    let listed: Vec<String> = route.iter().cloned().collect();
    assert_eq!(listed, vec!["a".to_owned()]);
}

#[test]
fn opposite_facets() {
    assert_eq!(opposite_facet("a"), "~a");
    assert_eq!(opposite_facet("~a"), "a");
    assert_eq!(opposite_facet(&opposite_facet("p(1)")), "p(1)");
    assert_eq!(opposite_facet(""), "~");
}
