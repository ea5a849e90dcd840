use fasb::dasc::{Dasc, DascError};

#[test]
fn no_counting_code() {
    assert!(matches!(Dasc::new("a. b :- a.".to_owned()), Ok(None)));
}

#[test]
fn counting_code() {
    let src = "p(1..3).\n#dasc_start\n% a comment\n  x <- #count(p(_))  \ny <- 3 2 +\n\nx y *\n#dasc_end\n";
    let d = Dasc::new(src.to_owned()).unwrap().unwrap();
    assert_eq!(
        d.decl,
        vec![("x".to_owned(), "#count(p(_))".to_owned()), ("y".to_owned(), "3 2 +".to_owned())]
    );
    assert_eq!(d.expr, vec!["*".to_owned(), "y".to_owned(), "x".to_owned()]);
    assert_eq!(d.declaration("y"), Some("3 2 +".to_owned()));
    assert_eq!(d.declaration("z"), None);
}

#[test]
fn later_declarations_win() {
    let src = "#dasc_start\nx <- 1\nx <- 2\nx\n#dasc_end";
    let d = Dasc::new(src.to_owned()).unwrap().unwrap();
    assert_eq!(d.declaration("x"), Some("2".to_owned()));
}

#[test]
fn code_ends_at_next_start() {
    let src = "#dasc_start\nx <- 1\nx\n#dasc_end\n#dasc_start\nignored";
    let d = Dasc::new(src.to_owned()).unwrap().unwrap();
    assert_eq!(d.expr, vec!["x".to_owned()]);
}

#[test]
fn refusals() {
    assert_eq!(
        Dasc::new("#dasc_start\nx <- 1 % two\nx\n#dasc_end".to_owned()).unwrap_err(),
        DascError::InvalidSyntax("x <- 1 % two".to_owned())
    );
    assert_eq!(
        Dasc::new("#dasc_start\nx <- 1\nx\n#dasc_stop".to_owned()).unwrap_err(),
        DascError::Unterminated
    );
    assert_eq!(
        Dasc::new("#dasc_start\nx <- 1\n#dasc_end".to_owned()).unwrap_err(),
        DascError::NoReturn
    );
}
