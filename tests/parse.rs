use sparser::{parse, Error};

#[test]
fn one_symbol() {
    assert_eq!(parse("(set!)").unwrap().car().unwrap().unwrap_symbol().unwrap(), "set!")
}

#[test]
fn nested_list() {
    assert_eq!(
        parse("((set!))").unwrap().car().unwrap().car().unwrap().unwrap_symbol().unwrap(),
        "set!"
    )
}

#[test]
fn numbers() {
    assert_eq!(
        parse("(set! x 3)")
            .unwrap()
            .cdr()
            .unwrap()
            .cdr()
            .unwrap()
            .car()
            .unwrap()
            .unwrap_number()
            .unwrap(),
        3
    )
}

#[test]
fn true_literal() {
    assert_eq!(parse("(#t)").unwrap().car().unwrap().is_true(), true);
}

#[test]
fn false_literal() {
    assert_eq!(parse("(#f)").unwrap().car().unwrap().is_true(), false);
}

#[test]
fn bool_literal_case_insentive() {
    assert_eq!(parse("(#F)").unwrap().car().unwrap().is_true(), false);
    assert_eq!(parse("(#T)").unwrap().car().unwrap().is_true(), true);
}

#[test]
fn true_oposite_of_false() {
    assert_eq!(parse("(#t)").unwrap().car().unwrap().is_false(), false);
    assert_eq!(parse("(#f)").unwrap().car().unwrap().is_false(), true);
}

// A quote stops all structural reading of what follows it.

#[test]
fn list_literals() {
    assert_eq!(parse("('(1 2 3))").unwrap().car().unwrap().unwrap_literal().unwrap(), "(1 2 3)")
}

#[test]
fn nested_list_literals() {
    assert_eq!(
        parse("('((1 2) 3))").unwrap().car().unwrap().unwrap_literal().unwrap(),
        "((1 2) 3)"
    )
}

#[test]
fn literals() {
    assert_eq!(
        parse("(if 'symb)").unwrap().cdr().unwrap().car().unwrap().unwrap_literal().unwrap(),
        "symb"
    )
}

#[test]
fn special_symbols() {
    parse("(= * / - + ?)").unwrap();
}

#[test]
fn not_closed_expression() {
    assert_eq!(parse("(set! x 1").unwrap_err(), Error::Syntax);
}

#[test]
fn invalid_expression() {
    assert_eq!(parse("(if #t 3 2) (exit)").unwrap_err(), Error::Syntax);
}
