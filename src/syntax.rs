//! The language that the reader accepts, stated as a reader over sequences of
//! characters with ordered choice: at each position the first alternative that
//! applies is the only one tried.
//!
//! ```text
//! program    := space* expression space* END
//! expression := list | literal | true | false | number | symbol
//! list       := "(" space* (expression (space+ expression)*)? space* ")"
//! literal    := "'" ( "(" balanced ")" | literal_char+ )
//! true       := "#" ("t" | "T")
//! false      := "#" ("f" | "F")
//! number     := digit+
//! symbol     := symbol_char+
//! ```
use vstd::prelude::*;

use crate::value::{Datum, Error};

verus! {

pub open spec fn is_space(c: char) -> bool {
    c == ' ' || c == '\t' || c == '\n' || c == '\r'
}

pub open spec fn is_digit(c: char) -> bool {
    '0' <= c && c <= '9'
}

/// A character of a symbol: anything but whitespace, a parenthesis, a quote
/// or `#`.
pub open spec fn is_symbol_char(c: char) -> bool {
    !is_space(c) && c != '(' && c != ')' && c != '\'' && c != '#'
}

/// A character of a quoted literal that is not a list: anything but
/// whitespace or a parenthesis.
pub open spec fn is_literal_char(c: char) -> bool {
    !is_space(c) && c != '(' && c != ')'
}

/// The classes of characters that make up runs in the grammar.
#[derive(Debug, Clone, Copy, PartialEq, Eq, Structural)]
pub enum CharClass {
    Space,
    Digit,
    SymbolChar,
    LiteralChar,
}

pub open spec fn in_class(c: char, k: CharClass) -> bool {
    match k {
        CharClass::Space => is_space(c),
        CharClass::Digit => is_digit(c),
        CharClass::SymbolChar => is_symbol_char(c),
        CharClass::LiteralChar => is_literal_char(c),
    }
}

/// The end of the longest run of characters of class `k` from `i`.
pub open spec fn run_end(s: Seq<char>, i: int, k: CharClass) -> int
    decreases s.len() - i,
{
    if i < 0 || i >= s.len() || !in_class(s[i], k) {
        i
    } else {
        run_end(s, i + 1, k)
    }
}

/// A run ends at or after its start, and within the sequence when it starts
/// there; every character of it has the property, and the one after it has not.
pub proof fn lemma_run_end_bounds(s: Seq<char>, i: int, k: CharClass)
    requires
        0 <= i,
    ensures
        i <= run_end(s, i, k),
        i <= s.len() ==> run_end(s, i, k) <= s.len(),
        forall|j: int| i <= j < run_end(s, i, k) ==> in_class(#[trigger] s[j], k),
        run_end(s, i, k) < s.len() ==> !in_class(s[run_end(s, i, k)], k),
    decreases s.len() - i,
{
    if i < s.len() && in_class(s[i], k) {
        lemma_run_end_bounds(s, i + 1, k);
    }
}

/// The first position from `i` that holds no whitespace.
pub open spec fn skip_space(s: Seq<char>, i: int) -> int {
    run_end(s, i, CharClass::Space)
}

/// Inside a quoted list, with `depth` parentheses open, the position just
/// after the parenthesis that closes the outermost one; `None` if the input
/// ends first.
pub open spec fn group_end(s: Seq<char>, i: int, depth: nat) -> Option<int>
    decreases s.len() - i,
{
    if i < 0 || i >= s.len() {
        None
    } else if s[i] == '(' {
        group_end(s, i + 1, depth + 1)
    } else if s[i] == ')' {
        if depth <= 1 {
            Some(i + 1)
        } else {
            group_end(s, i + 1, (depth - 1) as nat)
        }
    } else {
        group_end(s, i + 1, depth)
    }
}

/// The value of a run of decimal digits.
pub open spec fn digits_value(ds: Seq<char>) -> nat
    decreases ds.len(),
{
    if ds.len() == 0 {
        0
    } else {
        digits_value(ds.drop_last()) * 10 + (ds.last() as nat - '0' as nat) as nat
    }
}

/// The expression that starts at `i`, and the position just after it.
pub open spec fn read_expr(s: Seq<char>, i: int) -> Option<(Datum, int)>
    decreases s.len() - i, 0int,
{
    if i < 0 || i >= s.len() {
        None
    } else if s[i] == '(' {
        read_items(s, i + 1, true)
    } else if s[i] == '\'' {
        if i + 1 < s.len() && s[i + 1] == '(' {
            match group_end(s, i + 2, 1) {
                Some(e) => Some((Datum::Literal(s.subrange(i + 1, e)), e)),
                None => None,
            }
        } else {
            let e = run_end(s, i + 1, CharClass::LiteralChar);
            if e > i + 1 {
                Some((Datum::Literal(s.subrange(i + 1, e)), e))
            } else {
                None
            }
        }
    } else if s[i] == '#' {
        if i + 1 < s.len() && (s[i + 1] == 't' || s[i + 1] == 'T') {
            Some((Datum::Bool(true), i + 2))
        } else if i + 1 < s.len() && (s[i + 1] == 'f' || s[i + 1] == 'F') {
            Some((Datum::Bool(false), i + 2))
        } else {
            None
        }
    } else if is_digit(s[i]) {
        let e = run_end(s, i, CharClass::Digit);
        Some((Datum::Number(digits_value(s.subrange(i, e))), e))
    } else if is_symbol_char(s[i]) {
        let e = run_end(s, i, CharClass::SymbolChar);
        Some((Datum::Symbol(s.subrange(i, e)), e))
    } else {
        None
    }
}

/// The rest of a list from `i`, which is just after its opening parenthesis
/// (`first`) or just after one of its elements: the chain of pairs that holds
/// its remaining elements, and the position after its closing parenthesis.
/// Elements are separated by whitespace.
pub open spec fn read_items(s: Seq<char>, i: int, first: bool) -> Option<(Datum, int)>
    decreases s.len() - i, 1int,
    via read_items_decreases
{
    let m = skip_space(s, i);
    if i < 0 || m >= s.len() {
        None
    } else if s[m] == ')' {
        Some((Datum::Null, m + 1))
    } else if !first && m == i {
        None
    } else {
        match read_expr(s, m) {
            // an expression is never empty and ends within the input, so
            // this test always passes
            Some((head, e)) => if m < e <= s.len() {
                match read_items(s, e, false) {
                    Some((rest, k)) => Some((Datum::Pair(Box::new(head), Box::new(rest)), k)),
                    None => None,
                }
            } else {
                None
            },
            None => None,
        }
    }
}

#[via_fn]
proof fn read_items_decreases(s: Seq<char>, i: int, first: bool) {
    if i >= 0 {
        lemma_run_end_bounds(s, i, CharClass::Space);
    }
}

/// The one expression that a whole input holds, with only whitespace around
/// it; `None` if the input is anything else.
pub open spec fn read_program(s: Seq<char>) -> Option<Datum> {
    match read_expr(s, skip_space(s, 0)) {
        Some((d, e)) => if skip_space(s, e) == s.len() {
            Some(d)
        } else {
            None
        },
        None => None,
    }
}

/// Whether every number in a tree fits in a `usize`.
pub open spec fn numbers_fit(d: Datum) -> bool
    decreases d,
{
    match d {
        Datum::Pair(h, t) => numbers_fit(*h) && numbers_fit(*t),
        Datum::Number(n) => n <= usize::MAX,
        _ => true,
    }
}

} // verus!

verus! {

/// What reading a whole input gives: the tree of its one expression;
/// `Error::Syntax` when the input is not one expression with only whitespace
/// around it; `Error::NumericOverflow` when it is, but a number in it does not
/// fit in a `usize`.
pub open spec fn program_result(s: Seq<char>) -> Result<Datum, Error> {
    match read_program(s) {
        None => Err(Error::Syntax),
        Some(d) => if numbers_fit(d) {
            Ok(d)
        } else {
            Err(Error::NumericOverflow)
        },
    }
}

} // verus!
