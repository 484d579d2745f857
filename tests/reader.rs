use sparser::{parse, Error, Shape, Value};

fn symbols_of(mut v: Value) -> Vec<String> {
    let mut out = Vec::new();
    while let Value::List(c) = v {
        out.push(c.car.unwrap_symbol().unwrap());
        v = *c.cdr;
    }
    assert!(matches!(v, Value::Null));
    out
}

#[test]
fn single_symbol_lists_give_their_symbol() {
    for s in ["abc", "+", "set!", "x1", "a-b?", "λ", "=>"] {
        let input = format!("({})", s);
        let head = parse(&input).unwrap().car().unwrap();
        assert_eq!(head.unwrap_symbol().unwrap(), s);
        assert!(matches!(*parse(&input).unwrap().cdr().unwrap(), Value::Null));
    }
}

#[test]
fn punctuation_symbols_keep_their_text() {
    let v = parse("(= * / - + ?)").unwrap();
    assert_eq!(symbols_of(v), vec!["=", "*", "/", "-", "+", "?"]);
}

#[test]
fn empty_list_is_null() {
    assert!(matches!(parse("()").unwrap(), Value::Null));
    assert!(matches!(parse("( \t\n )").unwrap(), Value::Null));
}

#[test]
fn whitespace_around_and_between() {
    let v = parse(" \n\t( a \r\n  b\tc )  \n").unwrap();
    assert_eq!(symbols_of(v), vec!["a", "b", "c"]);
}

#[test]
fn top_level_atoms() {
    assert_eq!(parse("  hello ").unwrap().unwrap_symbol().unwrap(), "hello");
    assert_eq!(parse("42").unwrap().unwrap_number().unwrap(), 42);
    assert!(parse("#t").unwrap().is_true());
    assert_eq!(parse("'abc").unwrap().unwrap_literal().unwrap(), "abc");
}

#[test]
fn empty_and_blank_inputs_fail() {
    assert_eq!(parse("").unwrap_err(), Error::Syntax);
    assert_eq!(parse("  \n ").unwrap_err(), Error::Syntax);
}

#[test]
fn elements_need_whitespace_between_them() {
    assert_eq!(parse("(a(b))").unwrap_err(), Error::Syntax);
    assert_eq!(parse("(1x)").unwrap_err(), Error::Syntax);
    assert_eq!(parse("(#tx)").unwrap_err(), Error::Syntax);
    assert!(parse("(a (b))").is_ok());
}

#[test]
fn malformed_tokens_fail() {
    assert_eq!(parse("(#x)").unwrap_err(), Error::Syntax);
    assert_eq!(parse("(')").unwrap_err(), Error::Syntax);
    assert_eq!(parse("('(1 2)").unwrap_err(), Error::Syntax);
    assert_eq!(parse(")").unwrap_err(), Error::Syntax);
    assert_eq!(parse("(a))").unwrap_err(), Error::Syntax);
}

#[test]
fn numbers_have_their_decimal_value() {
    let v = parse("(0 7 1234 0042)").unwrap();
    let mut got = Vec::new();
    let mut v = v;
    while let Value::List(c) = v {
        got.push(c.car.unwrap_number().unwrap());
        v = *c.cdr;
    }
    assert_eq!(got, vec![0, 7, 1234, 42]);
}

#[test]
fn largest_number_fits() {
    let text = format!("({})", usize::MAX);
    assert_eq!(parse(&text).unwrap().car().unwrap().unwrap_number().unwrap(), usize::MAX);
}

#[test]
fn number_too_large_overflows() {
    let text = format!("(x {}0)", usize::MAX);
    assert_eq!(parse(&text).unwrap_err(), Error::NumericOverflow);
    assert_eq!(parse("99999999999999999999999999999").unwrap_err(), Error::NumericOverflow);
}

#[test]
fn syntax_error_wins_over_overflow() {
    let text = format!("({}0", usize::MAX);
    assert_eq!(parse(&text).unwrap_err(), Error::Syntax);
}

#[test]
fn literal_keeps_text_verbatim() {
    let v = parse("('(a #t 'b (c)) 'x#y)").unwrap();
    let rest = v.cdr().unwrap();
    assert_eq!(rest.car().unwrap().unwrap_literal().unwrap(), "x#y");
    let v = parse("('(a #t 'b (c)) 'x#y)").unwrap();
    assert_eq!(v.car().unwrap().unwrap_literal().unwrap(), "(a #t 'b (c))");
}

#[test]
fn accessors_report_the_expected_shape() {
    assert_eq!(parse("()").unwrap().car().unwrap_err(), Error::Type(Shape::Pair));
    assert_eq!(parse("x").unwrap().cdr().unwrap_err(), Error::Type(Shape::Pair));
    assert_eq!(parse("3").unwrap().unwrap_symbol().unwrap_err(), Error::Type(Shape::Symbol));
    assert_eq!(parse("x").unwrap().unwrap_number().unwrap_err(), Error::Type(Shape::Number));
    assert_eq!(parse("#t").unwrap().unwrap_literal().unwrap_err(), Error::Type(Shape::Literal));
}

#[test]
fn truth_of_non_booleans() {
    for input in ["3", "x", "()", "(a)", "'q", "#f", "#F"] {
        let v = parse(input).unwrap();
        assert!(!v.is_true());
        assert!(v.is_false());
    }
}

#[test]
fn classifiers_are_stable() {
    let v = parse("(x 3)").unwrap();
    let head = v.car().unwrap();
    assert_eq!(head.is_symbol(), head.is_symbol());
    assert!(head.is_symbol());
    assert!(!head.is_number());
    assert!(!head.is_number());
    assert_eq!(head.unwrap_symbol().unwrap(), "x");
    let n = parse("(x 3)").unwrap().cdr().unwrap().car().unwrap();
    assert!(n.is_number() && n.is_number());
    assert!(!n.is_symbol() && !n.is_symbol());
    assert_eq!(n.unwrap_number().unwrap(), 3);
}

#[test]
fn nested_definition() {
    let tree = parse("(define (fac n) (if (= n 0) 1 (* (fac (- n 1)))))").unwrap();
    assert_eq!(tree.car().unwrap().unwrap_symbol().unwrap(), "define");
    let tree = parse("(define (fac n) (if (= n 0) 1 (* (fac (- n 1)))))").unwrap();
    let signature = tree.cdr().unwrap().car().unwrap();
    assert_eq!(symbols_of(*signature), vec!["fac", "n"]);
}

#[test]
fn quoted_group_at_top_level() {
    assert_eq!(parse(" '(a (b) c) ").unwrap().unwrap_literal().unwrap(), "(a (b) c)");
    assert_eq!(parse("'()").unwrap().unwrap_literal().unwrap(), "()");
}
