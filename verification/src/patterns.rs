//! The two patterns that names are searched for, and what the `regex` crate finds with them.

use crate::text::{ascii_lowercase, is_ascii_alphanumeric, is_white_space};
use vstd::prelude::*;

verus! {

/// A word or sign that stands between two artists.
pub const SEPARATORS: &'static str = r"(?i)\b(?:and|plus)\b|[&+]";

/// A part of a title in parentheses.
pub const PARENTHESES: &'static str = r"\([^)]*\)";

/// A character that words are made of.
pub const WORD_CHARACTER: &'static str = r"\w";

/// Whether the `regex` crate finds a match of `pattern` in `text`.
pub uninterp spec fn regex_found(pattern: Seq<char>, text: Seq<char>) -> bool;

/// The characters that words are made of. Outside ASCII they are those that the `regex` crate
/// takes for word characters; the long s is one of them, and no white space is.
pub open spec fn is_word_character(c: char) -> bool {
    if c <= '\u{7f}' {
        is_ascii_alphanumeric(c) || c == '_'
    } else if c == '\u{17f}' || is_white_space(c) {
        c == '\u{17f}'
    } else {
        regex_found(WORD_CHARACTER@, seq![c])
    }
}

/// Whether `c` is the small letter `letter` of ASCII up to case. By Unicode's simple case folding
/// the long s is an s as well.
pub open spec fn folds_to(c: char, letter: char) -> bool {
    ||| c == letter
    ||| 'A' <= c <= 'Z' && ascii_lowercase(c) == letter
    ||| c == '\u{17f}' && letter == 's'
}

/// Whether the word `w`, in any case, stands in `s` at `i` as a word of its own.
pub open spec fn word_at(s: Seq<char>, i: int, w: Seq<char>) -> bool {
    &&& i + w.len() <= s.len()
    &&& forall|k: int| 0 <= k < w.len() ==> folds_to(#[trigger] s[i + k], w[k])
    &&& i == 0 || !is_word_character(s[i - 1])
    &&& i + w.len() == s.len() || !is_word_character(s[i + w.len()])
}

/// The length of the separator that begins at `i`; zero where none does.
pub open spec fn separator_length(s: Seq<char>, i: int) -> nat {
    if s[i] == '&' || s[i] == '+' {
        1
    } else if word_at(s, i, seq!['a', 'n', 'd']) {
        3
    } else if word_at(s, i, seq!['p', 'l', 'u', 's']) {
        4
    } else {
        0
    }
}

/// The place of the first closing parenthesis at or after `i`; the length of `s` if there is none.
pub open spec fn closing_from(s: Seq<char>, i: int) -> int
    decreases s.len() - i,
{
    if i >= s.len() || s[i] == ')' {
        i
    } else {
        closing_from(s, i + 1)
    }
}

/// The length of the parenthesized part that begins at `i`; zero where none does.
pub open spec fn parenthesized_length(s: Seq<char>, i: int) -> nat {
    let end = closing_from(s, i);
    if s[i] == '(' && end < s.len() {
        (end + 1 - i) as nat
    } else {
        0
    }
}

/// The length of what `pattern` matches at `i`; zero where it matches nothing.
pub open spec fn match_length(pattern: Seq<char>, s: Seq<char>, i: int) -> nat {
    if pattern == SEPARATORS@ {
        separator_length(s, i)
    } else {
        parenthesized_length(s, i)
    }
}

/// Whether `pattern` matches anywhere in `s`.
pub open spec fn occurs(pattern: Seq<char>, s: Seq<char>) -> bool {
    exists|i: int| 0 <= i < s.len() && #[trigger] match_length(pattern, s, i) > 0
}

/// `s` from `i` on with `replacement` in place of each match, taken from left to right.
pub open spec fn replaced_from(
    pattern: Seq<char>,
    s: Seq<char>,
    i: int,
    replacement: Seq<char>,
) -> Seq<char>
    decreases if i < s.len() { s.len() - i } else { 0 },
{
    if i >= s.len() {
        Seq::empty()
    } else {
        let n = match_length(pattern, s, i);
        if n > 0 {
            replacement + replaced_from(pattern, s, i + n, replacement)
        } else {
            seq![s[i]] + replaced_from(pattern, s, i + 1, replacement)
        }
    }
}

/// `s` with `replacement` in place of each match of `pattern`.
pub open spec fn replaced(pattern: Seq<char>, s: Seq<char>, replacement: Seq<char>) -> Seq<char> {
    replaced_from(pattern, s, 0, replacement)
}

/// `regex::Regex::is_match`, on the pattern that `regex::Regex::new` compiles: whether the text
/// holds a match. The patterns are well-formed, so compiling them does not fail. What the class of
/// word characters holds outside ASCII is only named.
#[verifier::external_body]
pub(crate) fn is_match(pattern: &str, text: &str) -> (found: bool)
    requires
        pattern@ == SEPARATORS@ || pattern@ == PARENTHESES@ || pattern@ == WORD_CHARACTER@,
    ensures
        found == regex_found(pattern@, text@),
        pattern@ == SEPARATORS@ || pattern@ == PARENTHESES@ ==> found == occurs(pattern@, text@),
{
    regex::Regex::new(pattern).unwrap().is_match(text)
}

/// `regex::Regex::replace_all`, on the pattern that `regex::Regex::new` compiles: all matches that
/// do not overlap, from the left, are replaced. A replacement without a dollar sign is put in as
/// it stands.
#[verifier::external_body]
pub(crate) fn replace_all(pattern: &str, text: &str, replacement: &str) -> (out: String)
    requires
        pattern@ == SEPARATORS@ || pattern@ == PARENTHESES@,
        !replacement@.contains('$'),
    ensures
        out@ == replaced(pattern@, text@, replacement@),
{
    regex::Regex::new(pattern).unwrap().replace_all(text, replacement).into_owned()
}

} // verus!
