//! The reader: recognizes an input against the grammar of `syntax` and builds
//! its tree in the same pass.
use vstd::prelude::*;
use vstd::std_specs::iter::IteratorSpec;
use vstd::string::StrSliceExecFns;
use vstd::string::StringExecFns;

use crate::syntax::{
    digits_value, group_end, in_class, is_digit, lemma_run_end_bounds, numbers_fit,
    program_result, read_expr, read_items, run_end, CharClass,
};
use crate::value::{Cons, Datum, Error, Value};

verus! {

broadcast use vstd::string::group_string_axioms;

/// The characters of a string, one per element.
fn chars_of(text: &str) -> (r: Vec<char>)
    ensures
        r@ == text@,
{
    let mut it = text.chars();
    let mut r: Vec<char> = Vec::new();
    loop
        invariant
            it.remaining() == text@.skip(r.len() as int),
            r@ == text@.take(r.len() as int),
            r.len() <= text@.len(),
        ensures
            r@ == text@,
        decreases text@.len() - r.len(),
    {
        match it.next() {
            Some(c) => {
                r.push(c);
            },
            None => {
                assert(r@ =~= text@);
                break ;
            },
        }
    }
    r
}

fn class_has(c: char, k: CharClass) -> (r: bool)
    ensures
        r == in_class(c, k),
{
    let space = c == ' ' || c == '\t' || c == '\n' || c == '\r';
    match k {
        CharClass::Space => space,
        CharClass::Digit => '0' <= c && c <= '9',
        CharClass::SymbolChar => !space && c != '(' && c != ')' && c != '\'' && c != '#',
        CharClass::LiteralChar => !space && c != '(' && c != ')',
    }
}

/// The end of the run of characters of class `k` that starts at `i`.
fn scan(s: &Vec<char>, i: usize, k: CharClass) -> (e: usize)
    requires
        i <= s.len(),
    ensures
        e == run_end(s@, i as int, k),
        i <= e <= s.len(),
        i < s.len() && in_class(s@[i as int], k) ==> i < e,
{
    let mut j = i;
    while j < s.len() && class_has(s[j], k)
        invariant
            i <= j <= s.len(),
            run_end(s@, j as int, k) == run_end(s@, i as int, k),
        decreases s.len() - j,
    {
        j = j + 1;
    }
    proof {
        if i < s.len() && in_class(s@[i as int], k) {
            lemma_run_end_bounds(s@, i + 1, k);
        }
    }
    j
}

/// The characters of `text` from `a` up to `b`.
fn text_between(text: &str, a: usize, b: usize) -> (r: String)
    requires
        a <= b <= text@.len(),
    ensures
        r@ == text@.subrange(a as int, b as int),
{
    String::from_str(text.substring_char(a, b))
}

/// Inside a quoted list whose opening parenthesis stands just before `i`, the
/// position just after its matching closing parenthesis.
fn group_end_at(s: &Vec<char>, i: usize) -> (r: Option<usize>)
    requires
        1 <= i <= s.len(),
    ensures
        match group_end(s@, i as int, 1) {
            None => r is None,
            Some(e) => r == Some(e as usize) && i < e <= s.len(),
        },
{
    let mut j = i;
    let mut depth: usize = 1;
    while j < s.len()
        invariant
            1 <= i <= j <= s.len(),
            1 <= depth <= j - i + 1,
            group_end(s@, j as int, depth as nat) == group_end(s@, i as int, 1),
        decreases s.len() - j,
    {
        if s[j] == '(' {
            depth = depth + 1;
        } else if s[j] == ')' {
            if depth <= 1 {
                return Some(j + 1);
            }
            depth = depth - 1;
        }
        j = j + 1;
    }
    None
}

/// The run of digits that starts at `i`: its value, if it fits in a `usize`,
/// and its end.
fn number_at(s: &Vec<char>, i: usize) -> (r: (Option<usize>, usize))
    requires
        i <= s.len(),
    ensures
        r.1 == run_end(s@, i as int, CharClass::Digit),
        i <= r.1 <= s.len(),
        i < s.len() && is_digit(s@[i as int]) ==> i < r.1,
        r.0 is Some <==> digits_value(s@.subrange(i as int, r.1 as int)) <= usize::MAX,
        r.0 is Some ==> r.0->0 as nat == digits_value(s@.subrange(i as int, r.1 as int)),
{
    let mut j = i;
    let mut value: usize = 0;
    let mut fits = true;
    while j < s.len() && class_has(s[j], CharClass::Digit)
        invariant
            i <= j <= s.len(),
            run_end(s@, j as int, CharClass::Digit) == run_end(s@, i as int, CharClass::Digit),
            fits ==> value as nat == digits_value(s@.subrange(i as int, j as int)),
            !fits ==> digits_value(s@.subrange(i as int, j as int)) > usize::MAX,
        decreases s.len() - j,
    {
        let ghost before = s@.subrange(i as int, j as int);
        let d = (s[j] as u32 - '0' as u32) as usize;
        assert(s@.subrange(i as int, j + 1).drop_last() =~= before);
        assert(digits_value(s@.subrange(i as int, j + 1)) == digits_value(before) * 10 + d);
        if fits {
            if value > (usize::MAX - d) / 10 {
                fits = false;
                assert(value * 10 + d > usize::MAX) by (nonlinear_arith)
                    requires
                        value > (usize::MAX - d) / 10,
                        d <= 9,
                ;
            } else {
                assert(value * 10 + d <= usize::MAX) by (nonlinear_arith)
                    requires
                        value <= (usize::MAX - d) / 10,
                        d <= 9,
                ;
                value = value * 10 + d;
            }
        }
        j = j + 1;
    }
    proof {
        if i < s.len() && is_digit(s@[i as int]) {
            lemma_run_end_bounds(s@, i + 1, CharClass::Digit);
        }
    }
    if fits {
        (Some(value), j)
    } else {
        (None, j)
    }
}

/// What a reader returned agrees with what the grammar reads at the same place:
/// nothing where it reads nothing; otherwise the same end, and the same tree
/// where all its numbers fit, no tree where one does not.
pub open spec fn agrees(r: Option<(Option<Value>, usize)>, expected: Option<(Datum, int)>) -> bool {
    match expected {
        None => r is None,
        Some((d, e)) => match r {
            None => false,
            Some((v, k)) => k == e && match v {
                None => !numbers_fit(d),
                Some(v) => numbers_fit(d) && v@ == d,
            },
        },
    }
}

/// Reads the expression that starts at `i`.
fn read_expr_at(text: &str, s: &Vec<char>, i: usize) -> (r: Option<(Option<Value>, usize)>)
    requires
        s@ == text@,
        i <= s.len(),
    ensures
        agrees(r, read_expr(s@, i as int)),
        r matches Some((_, e)) ==> i < e <= s.len(),
    decreases s.len() - i, 0usize,
{
    if i >= s.len() {
        return None;
    }
    let c = s[i];
    if c == '(' {
        read_items_at(text, s, i + 1, true)
    } else if c == '\'' {
        if i + 1 < s.len() && s[i + 1] == '(' {
            match group_end_at(s, i + 2) {
                Some(e) => Some((Some(Value::Literal(text_between(text, i + 1, e))), e)),
                None => None,
            }
        } else {
            let e = scan(s, i + 1, CharClass::LiteralChar);
            if e > i + 1 {
                Some((Some(Value::Literal(text_between(text, i + 1, e))), e))
            } else {
                None
            }
        }
    } else if c == '#' {
        if i + 1 < s.len() && (s[i + 1] == 't' || s[i + 1] == 'T') {
            Some((Some(Value::Bool(true)), i + 2))
        } else if i + 1 < s.len() && (s[i + 1] == 'f' || s[i + 1] == 'F') {
            Some((Some(Value::Bool(false)), i + 2))
        } else {
            None
        }
    } else if class_has(c, CharClass::Digit) {
        let (n, e) = number_at(s, i);
        match n {
            Some(n) => Some((Some(Value::Number(n)), e)),
            None => Some((None, e)),
        }
    } else if class_has(c, CharClass::SymbolChar) {
        let e = scan(s, i, CharClass::SymbolChar);
        Some((Some(Value::Symbol(text_between(text, i, e))), e))
    } else {
        None
    }
}

/// Reads the rest of a list from `i`, which is just after its opening
/// parenthesis (`first`) or just after one of its elements.
fn read_items_at(text: &str, s: &Vec<char>, i: usize, first: bool) -> (r: Option<
    (Option<Value>, usize),
>)
    requires
        s@ == text@,
        i <= s.len(),
    ensures
        agrees(r, read_items(s@, i as int, first)),
        r matches Some((_, e)) ==> i < e <= s.len(),
    decreases s.len() - i, 1usize,
{
    let m = scan(s, i, CharClass::Space);
    if m >= s.len() {
        return None;
    }
    if s[m] == ')' {
        return Some((Some(Value::Null), m + 1));
    }
    if !first && m == i {
        return None;
    }
    match read_expr_at(text, s, m) {
        None => None,
        Some((head, e)) => match read_items_at(text, s, e, false) {
            None => None,
            Some((rest, k)) => match (head, rest) {
                (Some(h), Some(t)) => Some(
                    (Some(Value::List(Cons { car: Box::new(h), cdr: Box::new(t) })), k),
                ),
                _ => Some((None, k)),
            },
        },
    }
}

/// Reads a whole input: one expression, with only whitespace around it.
///
/// The result is `Err(Error::Syntax)` exactly when the input is not such an
/// expression; otherwise `Err(Error::NumericOverflow)` exactly when a number in
/// it does not fit in a `usize`; otherwise the tree of the expression.
pub fn parse(input: &str) -> (r: Result<Value, Error>)
    ensures
        match program_result(input@) {
            Ok(d) => r is Ok && r->Ok_0@ == d,
            Err(e) => r == Err::<Value, Error>(e),
        },
{
    let s = chars_of(input);
    let i = scan(&s, 0, CharClass::Space);
    match read_expr_at(input, &s, i) {
        None => Err(Error::Syntax),
        Some((v, e)) => {
            if scan(&s, e, CharClass::Space) != s.len() {
                Err(Error::Syntax)
            } else {
                match v {
                    Some(v) => Ok(v),
                    None => Err(Error::NumericOverflow),
                }
            }
        },
    }
}

} // verus!
