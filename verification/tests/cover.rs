use fasb::cover::{solve_all, Matrix, Table};
use fasb::symbol::Symbol;

#[test]
fn kniff() {
    let mut im = Matrix::new(21);
    let arr = [
        [0, 0, 0, 0, 0, 0, 0, 0, 0, 0, 1, 1, 1, 0, 0, 0, 0, 0, 0, 0, 0],
        [0, 0, 0, 0, 0, 0, 0, 0, 0, 1, 1, 0, 1, 0, 0, 0, 0, 0, 0, 0, 0],
        [0, 0, 0, 0, 0, 0, 0, 0, 0, 0, 0, 0, 0, 0, 1, 1, 1, 1, 1, 1, 1],
        [0, 0, 0, 1, 1, 0, 1, 0, 0, 0, 0, 0, 0, 0, 0, 0, 0, 0, 0, 0, 0],
        [0, 0, 0, 0, 0, 0, 0, 0, 0, 0, 0, 0, 0, 1, 1, 0, 0, 1, 0, 0, 0],
        [1, 1, 1, 0, 0, 0, 0, 0, 0, 0, 0, 0, 0, 0, 0, 0, 0, 0, 0, 0, 0],
        [0, 0, 0, 0, 0, 1, 0, 1, 1, 0, 0, 0, 0, 0, 0, 0, 0, 0, 0, 0, 0],
        [0, 0, 0, 0, 0, 0, 0, 0, 0, 0, 0, 0, 0, 1, 0, 1, 1, 0, 0, 0, 0],
        [0, 1, 0, 0, 0, 0, 0, 1, 1, 0, 0, 0, 0, 0, 0, 0, 0, 0, 0, 0, 0],
        [0, 1, 0, 1, 0, 0, 0, 0, 0, 0, 0, 0, 0, 0, 0, 0, 0, 0, 0, 0, 0],
    ];
    arr.iter()
        .map(|v| v.iter().map(|u| *u == 1).collect::<Vec<_>>())
        .for_each(|v| {
            im.add_row(&v);
        });
    let sol = solve_all(im);
    println!("{:?}", sol);
}

#[test]
fn exact_covers_small() {
    let mut m = Matrix::new(4);
    m.add_row(&[true, true, false, false]);
    m.add_row(&[false, false, true, true]);
    m.add_row(&[true, false, true, false]);
    m.add_row(&[false, true, false, true]);
    m.add_row(&[true, true, true, true]);
    let mut sol = solve_all(m);
    sol.sort();
    assert_eq!(sol, vec![vec![0, 1], vec![2, 3], vec![4]]);

    let mut none = Matrix::new(2);
    none.add_row(&[true, false]);
    assert_eq!(solve_all(none), Vec::<Vec<usize>>::new());

    // no columns: the empty selection covers them
    assert_eq!(solve_all(Matrix::new(0)), vec![Vec::<usize>::new()]);
}

#[test]
fn incidence_table() {
    let a = Symbol::create_id("a", true);
    let b = Symbol::create_id("b", true);
    let table = Table::new(
        vec![Symbol::create_id("a", true), Symbol::create_id("b", true)],
        vec![vec![Symbol::create_id("a", true)], vec![Symbol::create_id("b", true)]],
        vec![vec![Symbol::create_id("b", true)], vec![a, b]],
    );
    assert_eq!(table.incidences.n_cols, 2);
    assert_eq!(
        table.incidences.rows,
        vec![vec![true, false], vec![false, true], vec![false, true], vec![true, true]]
    );
    let mut covers = table.max_exact_cover();
    covers.sort();
    assert_eq!(covers, vec![vec![0, 1], vec![0, 2], vec![3]]);
}

#[test]
fn sample_covers() {
    let id = |s: &str| Symbol::create_id(s, true);
    let template = vec![id("a"), id("b"), id("c")];
    let collection = vec![vec![id("a"), id("b")], vec![id("b"), id("c")], vec![id("c"), id("z")]];
    assert_eq!(fasb::cover::sample_cover(&collection, &template), Some(vec![0, 2]));
    let collection = vec![vec![id("a"), id("b")], vec![id("b"), id("c")]];
    assert_eq!(fasb::cover::sample_cover(&collection, &template), None);
}

#[test]
fn components_by_consequences() {
    let id = |s: &str| Symbol::create_id(s, true);
    let entries = vec![
        ("a".to_owned(), vec![id("x")], vec![id("p")]),
        ("~a".to_owned(), vec![id("y")], vec![id("q")]),
        ("b".to_owned(), vec![id("x")], vec![id("r"), id("p")]),
        ("~b".to_owned(), vec![id("y")], vec![id("q")]),
        ("b".to_owned(), vec![id("x")], vec![]),
    ];
    let groups = fasb::components::components(&entries);
    assert_eq!(groups.len(), 2);
    assert_eq!(groups[0].key, vec![id("x")]);
    assert_eq!(groups[0].facets, vec!["a".to_owned(), "b".to_owned()]);
    assert_eq!(groups[0].content, vec![id("p"), id("r")]);
    assert_eq!(groups[1].key, vec![id("y")]);
    assert_eq!(groups[1].facets, vec!["~a".to_owned(), "~b".to_owned()]);
    assert_eq!(groups[1].content, vec![id("q")]);
}
