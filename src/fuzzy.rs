use vstd::prelude::*;

use fuzzy_matcher::skim::SkimMatcherV2;
use fuzzy_matcher::FuzzyMatcher;

verus! {

pub open spec fn is_ascii_upper(c: char) -> bool {
    'A' <= c && c <= 'Z'
}

/// Characters compare equal, ignoring ASCII case unless `case_sensitive`.
pub open spec fn chars_match(c: char, p: char, case_sensitive: bool) -> bool {
    if case_sensitive {
        c == p
    } else {
        c == p || (is_ascii_upper(c) && c as u32 + 32 == p as u32) || (is_ascii_upper(p)
            && p as u32 + 32 == c as u32)
    }
}

pub open spec fn has_ascii_upper(s: Seq<char>) -> bool {
    exists|i: int| 0 <= i < s.len() && is_ascii_upper(#[trigger] s[i])
}

/// The characters of `pattern` occur in `choice` in order (a subsequence),
/// each compared with `chars_match`.
pub open spec fn in_order(pattern: Seq<char>, choice: Seq<char>, case_sensitive: bool) -> bool
    decreases choice.len(),
{
    if pattern.len() == 0 {
        true
    } else if choice.len() == 0 {
        false
    } else if chars_match(choice[0], pattern[0], case_sensitive) {
        in_order(pattern.drop_first(), choice.drop_first(), case_sensitive)
    } else {
        in_order(pattern, choice.drop_first(), case_sensitive)
    }
}

/// The fuzzy finder accepts `choice` for `pattern`: the pattern is a
/// subsequence of the choice, case-sensitive only when the pattern holds an
/// ASCII capital.
pub open spec fn fuzzy_accepts(choice: Seq<char>, pattern: Seq<char>) -> bool {
    in_order(pattern, choice, has_ascii_upper(pattern))
}

/// Case-insensitive (ASCII) subsequence.
pub open spec fn subsequence_ignoring_case(pattern: Seq<char>, choice: Seq<char>) -> bool {
    in_order(pattern, choice, false)
}

/// What the skim fuzzy matcher (default settings) answers for a choice and a pattern.
pub uninterp spec fn skim_result(choice: Seq<char>, pattern: Seq<char>) -> Option<i64>;

/// Relies on `SkimMatcherV2::fuzzy_match` with default settings: it scores
/// `choice` exactly when the greedy scan of `cheap_matches` finds the
/// pattern's characters in order (ASCII case ignored unless the pattern
/// holds an ASCII capital); the score depends on the two strings alone.
#[verifier::external_body]
pub(crate) fn skim_match(choice: &str, pattern: &str) -> (r: Option<i64>)
    ensures
        r == skim_result(choice@, pattern@),
        r is Some <==> fuzzy_accepts(choice@, pattern@),
{
    SkimMatcherV2::default().fuzzy_match(choice, pattern)
}

/// Dropping the first character of a pattern keeps it in order.
pub proof fn lemma_in_order_drop_first(pattern: Seq<char>, choice: Seq<char>, cs: bool)
    requires
        pattern.len() > 0,
        in_order(pattern, choice, cs),
    ensures
        in_order(pattern.drop_first(), choice, cs),
    decreases choice.len(),
{
    let rest = pattern.drop_first();
    if choice.len() > 0 && rest.len() > 0 {
        if chars_match(choice[0], pattern[0], cs) {
            if chars_match(choice[0], rest[0], cs) {
                lemma_in_order_drop_first(rest, choice.drop_first(), cs);
            }
        } else {
            lemma_in_order_drop_first(pattern, choice.drop_first(), cs);
            if chars_match(choice[0], rest[0], cs) {
                lemma_in_order_drop_first(rest, choice.drop_first(), cs);
            }
        }
    }
}

/// A case-sensitive match is also a match that ignores ASCII case.
pub proof fn lemma_exact_implies_ignoring_case(pattern: Seq<char>, choice: Seq<char>)
    requires
        in_order(pattern, choice, true),
    ensures
        in_order(pattern, choice, false),
    decreases choice.len(),
{
    if pattern.len() > 0 && choice.len() > 0 {
        if chars_match(choice[0], pattern[0], true) {
            lemma_exact_implies_ignoring_case(pattern.drop_first(), choice.drop_first());
        } else {
            lemma_exact_implies_ignoring_case(pattern, choice.drop_first());
            if chars_match(choice[0], pattern[0], false) {
                lemma_in_order_drop_first(pattern, choice.drop_first(), false);
            }
        }
    }
}

/// Whatever the case rule, a fuzzy match is a subsequence that ignores ASCII case.
pub proof fn lemma_fuzzy_accepts_subsequence(choice: Seq<char>, pattern: Seq<char>)
    requires
        fuzzy_accepts(choice, pattern),
    ensures
        subsequence_ignoring_case(pattern, choice),
{
    if has_ascii_upper(pattern) {
        lemma_exact_implies_ignoring_case(pattern, choice);
    }
}

} // verus!
