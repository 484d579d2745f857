//! Properties of the language, proved from the grammar of `syntax`.
use vstd::prelude::*;

use crate::syntax::{
    group_end, in_class, is_digit, is_space, is_symbol_char, lemma_run_end_bounds, numbers_fit,
    program_result, read_expr, read_items, read_program, run_end, skip_space, CharClass,
};
use crate::value::{Datum, Error};

verus! {

/// A run of characters of class `k` from `i` ends at `e` when every
/// character before `e` is of that class and the one at `e`, if any, is not.
pub proof fn lemma_run_end_exact(s: Seq<char>, i: int, e: int, k: CharClass)
    requires
        0 <= i <= e <= s.len(),
        forall|j: int| i <= j < e ==> in_class(#[trigger] s[j], k),
        e < s.len() ==> !in_class(s[e], k),
    ensures
        run_end(s, i, k) == e,
    decreases e - i,
{
    if i < e {
        lemma_run_end_exact(s, i + 1, e, k);
    }
}

/// A bare symbol: one or more symbol characters, not starting with a digit
/// (a run that starts with a digit is read as a number).
pub open spec fn is_bare_symbol(t: Seq<char>) -> bool {
    &&& t.len() > 0
    &&& !is_digit(t[0])
    &&& forall|j: int| 0 <= j < t.len() ==> is_symbol_char(#[trigger] t[j])
}

/// A list of one bare symbol, `(S)`, reads as the one-element list whose head
/// is the symbol `S`, with exactly its characters.
pub proof fn lemma_single_symbol_list(t: Seq<char>)
    requires
        is_bare_symbol(t),
    ensures
        program_result(seq!['('] + t + seq![')']) == Ok::<Datum, Error>(
            Datum::Pair(Box::new(Datum::Symbol(t)), Box::new(Datum::Null)),
        ),
{
    let s = seq!['('] + t + seq![')'];
    let e = t.len() as int + 1;
    assert(s[0] == '(');
    assert(s[e] == ')');
    assert forall|j: int| 1 <= j < e implies in_class(#[trigger] s[j], CharClass::SymbolChar) by {
        assert(s[j] == t[j - 1]);
    }
    lemma_run_end_exact(s, 0, 0, CharClass::Space);
    lemma_run_end_exact(s, 1, 1, CharClass::Space);
    lemma_run_end_exact(s, 1, e, CharClass::SymbolChar);
    lemma_run_end_exact(s, e, e, CharClass::Space);
    lemma_run_end_exact(s, e + 1, e + 1, CharClass::Space);
    assert(s.subrange(1, e) =~= t);
    assert(read_items(s, e, false) == Some((Datum::Null, e + 1)));
    assert(read_expr(s, 1) == Some((Datum::Symbol(t), e)));
    assert(skip_space(s, 0) == 0);
    assert(read_items(s, 1, true) == Some(
        (Datum::Pair(Box::new(Datum::Symbol(t)), Box::new(Datum::Null)), e + 1),
    ));
    assert(numbers_fit(Datum::Symbol(t)) && numbers_fit(Datum::Null));
    assert(numbers_fit(Datum::Pair(Box::new(Datum::Symbol(t)), Box::new(Datum::Null))));
}

/// Scanning a quoted group does not depend on what stands around it.
pub proof fn lemma_group_end_in_context(
    a: Seq<char>,
    t: Seq<char>,
    b: Seq<char>,
    j: int,
    depth: nat,
)
    requires
        0 <= j,
        group_end(t, j, depth) is Some,
    ensures
        group_end(a + t + b, a.len() + j, depth) == Some(a.len() + group_end(t, j, depth)->0),
    decreases t.len() - j,
{
    let s = a + t + b;
    assert(s[a.len() + j] == t[j]);
    if t[j] == '(' {
        lemma_group_end_in_context(a, t, b, j + 1, depth + 1);
    } else if t[j] == ')' {
        if depth > 1 {
            lemma_group_end_in_context(a, t, b, j + 1, (depth - 1) as nat);
        }
    } else {
        lemma_group_end_in_context(a, t, b, j + 1, depth);
    }
}

/// A balanced parenthesized text: it opens with `(` and the parenthesis that
/// closes that one is its last character.
pub open spec fn is_balanced_group(t: Seq<char>) -> bool {
    t.len() > 0 && t[0] == '(' && group_end(t, 1, 1) == Some(t.len() as int)
}

/// A list whose one element is a quoted balanced text, `('T)`, reads as the
/// one-element list whose head is the literal `T`, character for character:
/// nothing inside the quoted text is read as structure.
pub proof fn lemma_quoted_group_list(t: Seq<char>)
    requires
        is_balanced_group(t),
    ensures
        program_result(seq!['(', '\''] + t + seq![')']) == Ok::<Datum, Error>(
            Datum::Pair(Box::new(Datum::Literal(t)), Box::new(Datum::Null)),
        ),
{
    let a = seq!['(', '\''];
    let b = seq![')'];
    let s = a + t + b;
    let e = t.len() as int + 2;
    assert(s[0] == '(');
    assert(s[1] == '\'');
    assert(s[2] == t[0]);
    assert(s[e] == ')');
    lemma_group_end_in_context(a, t, b, 1, 1);
    assert(group_end(s, 3, 1) == Some(e));
    lemma_run_end_exact(s, 0, 0, CharClass::Space);
    lemma_run_end_exact(s, 1, 1, CharClass::Space);
    lemma_run_end_exact(s, e, e, CharClass::Space);
    lemma_run_end_exact(s, e + 1, e + 1, CharClass::Space);
    assert(s.subrange(2, e) =~= t);
    assert(read_expr(s, 1) == Some((Datum::Literal(t), e)));
    assert(read_items(s, e, false) == Some((Datum::Null, e + 1)));
    assert(read_items(s, 1, true) == Some(
        (Datum::Pair(Box::new(Datum::Literal(t)), Box::new(Datum::Null)), e + 1),
    ));
    assert(numbers_fit(Datum::Literal(t)) && numbers_fit(Datum::Null));
    assert(numbers_fit(Datum::Pair(Box::new(Datum::Literal(t)), Box::new(Datum::Null))));
}

/// An input is one expression only: when anything but whitespace follows the
/// first expression, the whole input is rejected.
pub proof fn lemma_trailing_content_fails(s: Seq<char>, k: int)
    requires
        match read_expr(s, skip_space(s, 0)) {
            Some((_, e)) => e <= k < s.len(),
            None => false,
        },
        !is_space(s[k]),
    ensures
        read_program(s) is None,
        program_result(s) == Err::<Datum, Error>(Error::Syntax),
{
    let (_, e) = read_expr(s, skip_space(s, 0))->0;
    if e >= 0 {
        lemma_run_end_bounds(s, e, CharClass::Space);
        if skip_space(s, e) == s.len() {
            assert(in_class(s[k], CharClass::Space));
        }
    }
}

} // verus!
