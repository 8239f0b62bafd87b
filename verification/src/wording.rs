//! What becomes of names, part by part: where they are normalized, where the separators of artists
//! are replaced, and where titles lose their parentheses.

use crate::fallback::{artist_key, title_key};
use crate::names::{
    normalized, other_than, separator_forms, separators_unified, spaced, spellings, variant,
    variants, without_parentheses,
};
use crate::patterns::{
    closing_from, folds_to, is_word_character, match_length, occurs, replaced, replaced_from,
    separator_length, word_at, PARENTHESES, SEPARATORS,
};
use crate::spelling::{
    grouped, is_mark, lemma_closing, lemma_nothing_replaced, lemma_occurs_grouped,
    lemma_patterns_differ, lemma_replaced_right, lemma_replaced_split, lemma_separator_left,
    lemma_separator_middle, lemma_separator_right, lemma_stripped_ungrouped,
};
use crate::text::{
    collapsed, is_name_character, is_white_space, joined, law_collapsed, law_collapsed_parts,
    law_words, lemma_no_words, lemma_words_split, words,
};
use crate::tools::TextModel;
use vstd::prelude::*;

verus! {

/// How a name is normalized: letters and digits stay as they are, and every other character parts
/// what stands on its two sides, which are then put one space apart, unless one of them is empty.
pub proof fn law_normalized_parts(a: Seq<char>, c: char, b: Seq<char>, w: Seq<char>)
    ensures
        normalized(Seq::<char>::empty()) == Seq::<char>::empty(),
        (forall|i: int| 0 <= i < w.len() ==> is_name_character(#[trigger] w[i])) ==> normalized(w)
            == w,
        !is_name_character(c) ==> normalized(a + seq![c] + b) == (if normalized(a).len() == 0 {
            normalized(b)
        } else if normalized(b).len() == 0 {
            normalized(a)
        } else {
            normalized(a) + seq![' '] + normalized(b)
        }),
{
    let none = Seq::<char>::empty();
    assert(spaced(none) =~= none);
    law_collapsed_parts(spaced(a), ' ', spaced(b), spaced(w));
    if forall|i: int| 0 <= i < w.len() ==> is_name_character(#[trigger] w[i]) {
        assert(spaced(w) =~= w);
    }
    if !is_name_character(c) {
        assert(spaced(a + seq![c] + b) =~= spaced(a) + seq![' '] + spaced(b));
    }
}

/// Titles are compared by what normalizing makes of them once they are prepared, and artists by the
/// same once their separators are unified.
pub proof fn law_keys(name: Seq<char>, model: TextModel)
    ensures
        title_key(name, model) == normalized((model.prepared)(name)),
        artist_key(name, model) == normalized((model.prepared)(separators_unified(name))),
        artist_key(name, model) == title_key(separators_unified(name), model),
        separators_unified(name) == replaced(SEPARATORS@, name, " and "@),
{
}

/// Replacing up to a sign and after it.
proof fn lemma_sign_from(x: Seq<char>, c: char, y: Seq<char>, i: int, by: Seq<char>)
    requires
        c == '&' || c == '+',
        0 <= i <= x.len(),
    ensures
        replaced_from(SEPARATORS@, x + seq![c] + y, i, by) == replaced_from(SEPARATORS@, x, i, by)
            + by + replaced(SEPARATORS@, y, by),
    decreases x.len() - i,
{
    let z = x + seq![c] + y;
    if i < x.len() {
        lemma_separator_left(x, c, y, i);
        let n = separator_length(x, i);
        assert(z[i] == x[i]);
        if n > 0 {
            lemma_sign_from(x, c, y, i + n, by);
        } else {
            lemma_sign_from(x, c, y, i + 1, by);
        }
    } else {
        assert(z[i] == c);
        lemma_replaced_right(x, c, y, 0, by);
    }
    assert(replaced_from(SEPARATORS@, z, i, by) =~= replaced_from(SEPARATORS@, x, i, by) + by
        + replaced(SEPARATORS@, y, by));
}

/// Whether a text is one of the words that separate artists, in any case. The long s is an s.
pub open spec fn is_separator_word(w: Seq<char>) -> bool {
    ||| w.len() == 3 && (w[0] == 'a' || w[0] == 'A') && (w[1] == 'n' || w[1] == 'N') && (w[2] == 'd'
        || w[2] == 'D')
    ||| w.len() == 4 && (w[0] == 'p' || w[0] == 'P') && (w[1] == 'l' || w[1] == 'L') && (w[2] == 'u'
        || w[2] == 'U') && (w[3] == 's' || w[3] == 'S' || w[3] == '\u{17f}')
}

/// Where separators stand in a run of word characters: at its beginning, if it is one.
proof fn lemma_run(w: Seq<char>)
    requires
        w.len() > 0,
        forall|i: int| 0 <= i < w.len() ==> is_word_character(#[trigger] w[i]),
    ensures
        separator_length(w, 0) == (if is_separator_word(w) {
            w.len()
        } else {
            0
        }),
        forall|i: int| 0 < i < w.len() ==> #[trigger] separator_length(w, i) == 0,
{
    let and = seq!['a', 'n', 'd'];
    let plus = seq!['p', 'l', 'u', 's'];
    assert(is_word_character(w[0]));
    if word_at(w, 0, and) {
        if w.len() > 3 {
            assert(is_word_character(w[3]));
        }
        assert(folds_to(w[0int + 0int], and[0]) && folds_to(w[0int + 1int], and[1]) && folds_to(
            w[0int + 2int],
            and[2],
        ));
    }
    if word_at(w, 0, plus) {
        if w.len() > 4 {
            assert(is_word_character(w[4]));
        }
        assert(folds_to(w[0int + 0int], plus[0]) && folds_to(w[0int + 1int], plus[1]) && folds_to(
            w[0int + 2int],
            plus[2],
        ) && folds_to(w[0int + 3int], plus[3]));
    }
    if is_separator_word(w) {
        if w.len() == 3 {
            assert forall|k: int| 0 <= k < and.len() implies folds_to(#[trigger] w[0 + k], and[k]) by {
                assert(k == 0 || k == 1 || k == 2);
            }
            assert(word_at(w, 0, and));
        } else {
            assert forall|k: int| 0 <= k < plus.len() implies folds_to(
                #[trigger] w[0 + k],
                plus[k],
            ) by {
                assert(k == 0 || k == 1 || k == 2 || k == 3);
            }
            assert(word_at(w, 0, plus));
            assert(!word_at(w, 0, and));
        }
    }
    assert forall|i: int| 0 < i < w.len() implies #[trigger] separator_length(w, i) == 0 by {
        assert(is_word_character(w[i]) && is_word_character(w[i - 1]));
    }
}

/// Where separators are replaced in a name. A sign is one wherever it stands. What stands between
/// signs and characters that are no part of a word is one if it is `and` or `plus`, in any case, and
/// else stays as it is; and so do those characters.
pub proof fn law_replaced(a: Seq<char>, c: char, b: Seq<char>, w: Seq<char>, by: Seq<char>)
    ensures
        replaced(SEPARATORS@, Seq::empty(), by) == Seq::<char>::empty(),
        c == '&' || c == '+' ==> replaced(SEPARATORS@, a + seq![c] + b, by) == replaced(
            SEPARATORS@,
            a,
            by,
        ) + by + replaced(SEPARATORS@, b, by),
        !is_word_character(c) && c != '&' && c != '+' ==> replaced(
            SEPARATORS@,
            a + seq![c] + b,
            by,
        ) == replaced(SEPARATORS@, a, by) + seq![c] + replaced(SEPARATORS@, b, by),
        w.len() > 0 && (forall|i: int| 0 <= i < w.len() ==> is_word_character(#[trigger] w[i]))
            ==> replaced(SEPARATORS@, w, by) == (if is_separator_word(w) {
            by
        } else {
            w
        }),
{
    if c == '&' || c == '+' {
        lemma_sign_from(a, c, b, 0, by);
    } else if is_mark(c) {
        lemma_replaced_split(a, c, b, by);
    }
    if w.len() > 0 && (forall|i: int| 0 <= i < w.len() ==> is_word_character(#[trigger] w[i])) {
        lemma_run(w);
        if is_separator_word(w) {
            assert(replaced_from(SEPARATORS@, w, w.len() as int, by) =~= Seq::empty());
            assert(replaced(SEPARATORS@, w, by) =~= by);
        } else {
            assert forall|j: int| 0 <= j < w.len() implies #[trigger] separator_length(w, j) == 0 by {
                if j > 0 {
                    assert(is_word_character(w[j]));
                }
            }
            lemma_nothing_replaced(w, 0, by);
            assert(w.skip(0) =~= w);
        }
    }
}

/// Where a name has separators: a sign is one, and else one stands on one side or the other of what
/// is no part of a word. What is all of word characters is one or has none.
pub proof fn law_occurs(a: Seq<char>, c: char, b: Seq<char>, w: Seq<char>)
    ensures
        !occurs(SEPARATORS@, Seq::empty()),
        c == '&' || c == '+' ==> occurs(SEPARATORS@, a + seq![c] + b),
        !is_word_character(c) && c != '&' && c != '+' ==> (occurs(SEPARATORS@, a + seq![c] + b)
            <==> occurs(SEPARATORS@, a) || occurs(SEPARATORS@, b)),
        w.len() > 0 && (forall|i: int| 0 <= i < w.len() ==> is_word_character(#[trigger] w[i]))
            ==> (occurs(SEPARATORS@, w) <==> is_separator_word(w)),
{
    let z = a + seq![c] + b;
    let m = a.len() as int;
    assert(z[m] == c);
    if c == '&' || c == '+' {
        assert(match_length(SEPARATORS@, z, m) > 0);
    } else if is_mark(c) {
        if occurs(SEPARATORS@, z) {
            let i = choose|i: int| 0 <= i < z.len() && #[trigger] match_length(SEPARATORS@, z, i) > 0;
            if i < m {
                lemma_separator_left(a, c, b, i);
                assert(match_length(SEPARATORS@, a, i) > 0);
            } else if i == m {
                lemma_separator_middle(z, i);
            } else {
                lemma_separator_right(a, c, b, i - m - 1);
                assert(match_length(SEPARATORS@, b, i - m - 1) > 0);
            }
        }
        if occurs(SEPARATORS@, a) {
            let i = choose|i: int| 0 <= i < a.len() && #[trigger] match_length(SEPARATORS@, a, i) > 0;
            lemma_separator_left(a, c, b, i);
            assert(match_length(SEPARATORS@, z, i) > 0);
        }
        if occurs(SEPARATORS@, b) {
            let i = choose|i: int| 0 <= i < b.len() && #[trigger] match_length(SEPARATORS@, b, i) > 0;
            lemma_separator_right(a, c, b, i);
            assert(match_length(SEPARATORS@, z, m + 1 + i) > 0);
        }
    }
    if w.len() > 0 && (forall|i: int| 0 <= i < w.len() ==> is_word_character(#[trigger] w[i])) {
        lemma_run(w);
        if is_separator_word(w) {
            assert(match_length(SEPARATORS@, w, 0) > 0);
        }
        if occurs(SEPARATORS@, w) {
            let i = choose|i: int| 0 <= i < w.len() && #[trigger] match_length(SEPARATORS@, w, i) > 0;
            assert(separator_length(w, i) > 0);
        }
    }
}

/// Which characters are part of a word: in ASCII letters, digits and the underscore, and the long s,
/// and nowhere white space.
pub proof fn law_word_characters(c: char)
    ensures
        c <= '\u{7f}' ==> (is_word_character(c) <==> ('0' <= c <= '9' || 'A' <= c <= 'Z' || 'a' <= c
            <= 'z' || c == '_')),
        is_word_character('\u{17f}'),
        is_white_space(c) ==> !is_word_character(c),
{
}

/// The words of a spelling. A sign is written as the form, as a word of its own; so is a separator
/// that stands alone; white space parts what stands on its two sides.
pub proof fn law_variant_parts(a: Seq<char>, c: char, b: Seq<char>, w: Seq<char>, form: Seq<char>)
    ensures
        c == '&' || c == '+' ==> words(variant(a + seq![c] + b, form)) == words(variant(a, form))
            + words(form) + words(variant(b, form)),
        is_white_space(c) ==> words(variant(a + seq![c] + b, form)) == words(variant(a, form))
            + words(variant(b, form)),
        w.len() > 0 && (forall|i: int| 0 <= i < w.len() ==> is_word_character(#[trigger] w[i]))
            ==> words(variant(w, form)) == (if is_separator_word(w) {
            words(form)
        } else {
            seq![w]
        }),
        variant(w, form) == collapsed(replaced(SEPARATORS@, w, seq![' '] + form + seq![' '])),
        variant(w, form) == joined(words(variant(w, form))),
{
    let by = seq![' '] + form + seq![' '];
    let x = replaced(SEPARATORS@, a, by);
    let y = replaced(SEPARATORS@, b, by);
    law_replaced(a, c, b, w, by);
    law_collapsed(x);
    law_collapsed(y);
    law_collapsed(replaced(SEPARATORS@, a + seq![c] + b, by));
    law_collapsed(replaced(SEPARATORS@, w, by));
    if c == '&' || c == '+' {
        assert(x + by + y =~= (x + seq![' '] + form) + seq![' '] + y);
        lemma_words_split(x + seq![' '] + form, ' ', y);
        lemma_words_split(x, ' ', form);
    }
    if is_white_space(c) {
        law_word_characters(c);
        lemma_words_split(x, c, y);
    }
    if w.len() > 0 && (forall|i: int| 0 <= i < w.len() ==> is_word_character(#[trigger] w[i])) {
        if is_separator_word(w) {
            let none = Seq::<char>::empty();
            assert(by =~= (none + seq![' '] + form) + seq![' '] + none);
            lemma_words_split(none + seq![' '] + form, ' ', none);
            lemma_words_split(none, ' ', form);
            assert(words(none) + words(form) + words(none) =~= words(form));
        } else {
            assert forall|i: int| 0 <= i < w.len() implies !is_white_space(#[trigger] w[i]) by {
                law_word_characters(w[i]);
            }
            law_words(a, c, b, w);
        }
    }
}

/// A name as a list, unless it is the given one.
pub open spec fn if_other(name: Seq<char>, given: Seq<char>) -> Seq<Seq<char>> {
    if name != given {
        seq![name]
    } else {
        Seq::empty()
    }
}

/// One more name is kept, unless it is the given one.
proof fn lemma_one_more(list: Seq<Seq<char>>, name: Seq<char>, given: Seq<char>)
    ensures
        list.push(name).filter(other_than(given)) == list.filter(other_than(given)) + if_other(
            name,
            given,
        ),
{
    list.lemma_filter_push(name, other_than(given));
    assert(list.push(name).filter(other_than(given)) =~= list.filter(other_than(given)) + if_other(
        name,
        given,
    ));
}

/// Of four names those are kept that are not the given one.
proof fn lemma_four(
    a: Seq<char>,
    b: Seq<char>,
    c: Seq<char>,
    d: Seq<char>,
    given: Seq<char>,
)
    ensures
        Seq::<Seq<char>>::empty().push(a).push(b).push(c).push(d).filter(other_than(given))
            == if_other(a, given) + if_other(b, given) + if_other(c, given) + if_other(d, given),
{
    let none = Seq::<Seq<char>>::empty();
    assert(none.filter(other_than(given)) == none) by {
        reveal(Seq::filter);
    }
    lemma_one_more(none, a, given);
    lemma_one_more(none.push(a), b, given);
    lemma_one_more(none.push(a).push(b), c, given);
    lemma_one_more(none.push(a).push(b).push(c), d, given);
    assert(none + if_other(a, given) =~= if_other(a, given));
}

/// The variants of a name with a separator are its spellings with `and`, `&`, `plus` and `+`, in this
/// order, without the one that is the name itself.
pub proof fn law_variant_list(artist: Seq<char>)
    requires
        occurs(SEPARATORS@, artist),
    ensures
        variants(artist) == if_other(variant(artist, seq!['a', 'n', 'd']), artist) + if_other(
            variant(artist, seq!['&']),
            artist,
        ) + if_other(variant(artist, seq!['p', 'l', 'u', 's']), artist) + if_other(
            variant(artist, seq!['+']),
            artist,
        ),
{
    lemma_forms();
    let a = variant(artist, seq!['a', 'n', 'd']);
    let b = variant(artist, seq!['&']);
    let c = variant(artist, seq!['p', 'l', 'u', 's']);
    let d = variant(artist, seq!['+']);
    assert(spellings(artist) =~= Seq::<Seq<char>>::empty().push(a).push(b).push(c).push(d));
    lemma_four(a, b, c, d, artist);
}

/// The ways in which a separator is written, letter by letter.
proof fn lemma_forms()
    ensures
        separator_forms() == seq![
            seq!['a', 'n', 'd'],
            seq!['&'],
            seq!['p', 'l', 'u', 's'],
            seq!['+'],
        ],
{
    reveal_strlit("and");
    reveal_strlit("&");
    reveal_strlit("plus");
    reveal_strlit("+");
    assert("and"@ =~= seq!['a', 'n', 'd']);
    assert("&"@ =~= seq!['&']);
    assert("plus"@ =~= seq!['p', 'l', 'u', 's']);
    assert("+"@ =~= seq!['+']);
}

/// Up to the first opening parenthesis nothing is blanked.
proof fn lemma_blanked_before(x: Seq<char>, z: Seq<char>, i: int)
    requires
        0 <= i <= x.len() < z.len(),
        forall|k: int| 0 <= k < x.len() ==> #[trigger] x[k] != '(' && z[k] == x[k],
    ensures
        replaced_from(PARENTHESES@, z, i, seq![' ']) == x.skip(i) + replaced_from(
            PARENTHESES@,
            z,
            x.len() as int,
            seq![' '],
        ),
    decreases x.len() - i,
{
    lemma_patterns_differ();
    if i < x.len() {
        assert(x[i] != '(');
        lemma_blanked_before(x, z, i + 1);
        assert(seq![x[i]] + x.skip(i + 1) =~= x.skip(i));
        assert(replaced_from(PARENTHESES@, z, i, seq![' ']) =~= x.skip(i) + replaced_from(
            PARENTHESES@,
            z,
            x.len() as int,
            seq![' '],
        ));
    } else {
        assert(x.skip(i) + replaced_from(PARENTHESES@, z, i, seq![' ']) =~= replaced_from(
            PARENTHESES@,
            z,
            i,
            seq![' '],
        ));
    }
}

/// The first closing parenthesis of the end of a text.
proof fn lemma_closing_skip(z: Seq<char>, m: int, i: int)
    requires
        0 <= m,
        0 <= i <= z.len() - m,
    ensures
        closing_from(z, m + i) == m + closing_from(z.skip(m), i),
    decreases z.len() - m - i,
{
    if i < z.len() - m && z[m + i] != ')' {
        lemma_closing_skip(z, m, i + 1);
    }
}

/// What is blanked at the end of a text does not depend on what comes before.
proof fn lemma_blanked_skip(z: Seq<char>, m: int, i: int)
    requires
        0 <= m <= z.len(),
        0 <= i,
    ensures
        replaced_from(PARENTHESES@, z, m + i, seq![' ']) == replaced_from(
            PARENTHESES@,
            z.skip(m),
            i,
            seq![' '],
        ),
    decreases if m + i < z.len() { z.len() - m - i } else { 0 },
{
    lemma_patterns_differ();
    if m + i < z.len() {
        lemma_closing_skip(z, m, i);
        let n = match_length(PARENTHESES@, z, m + i);
        assert(n == match_length(PARENTHESES@, z.skip(m), i));
        lemma_closing(z, m + i);
        if n > 0 {
            lemma_blanked_skip(z, m, i + n);
        } else {
            lemma_blanked_skip(z, m, i + 1);
        }
    }
}

/// A text without an opening parenthesis before a closing one is not blanked anywhere.
proof fn lemma_not_blanked(s: Seq<char>, i: int)
    requires
        0 <= i <= s.len(),
        !grouped(s),
    ensures
        replaced_from(PARENTHESES@, s, i, seq![' ']) == s.skip(i),
    decreases s.len() - i,
{
    lemma_patterns_differ();
    if i < s.len() {
        lemma_closing(s, i);
        if s[i] == '(' && closing_from(s, i) < s.len() {
            assert(s[closing_from(s, i)] == ')');
        }
        lemma_not_blanked(s, i + 1);
        assert(seq![s[i]] + s.skip(i + 1) =~= s.skip(i));
    } else {
        assert(replaced_from(PARENTHESES@, s, i, seq![' ']) =~= s.skip(i));
    }
}

/// A title is stripped of a first part in parentheses and of all that follow; what is left are the
/// words before it and the words that are left of the rest. If none are left, or if there is no part
/// in parentheses, there is no stripped title.
pub proof fn law_stripped_parts(x: Seq<char>, inner: Seq<char>, y: Seq<char>)
    requires
        !x.contains('('),
        !inner.contains(')'),
    ensures
        !(exists|p: int, q: int|
            0 <= p < q < y.len() && #[trigger] y[p] == '(' && #[trigger] y[q] == ')')
            ==> without_parentheses(y) is None,
        ({
            let title = x + seq!['('] + inner + seq![')'] + y;
            let again = exists|p: int, q: int|
                0 <= p < q < y.len() && #[trigger] y[p] == '(' && #[trigger] y[q] == ')';
            let rest = if !again {
                words(y)
            } else {
                match without_parentheses(y) {
                    Some(stripped) => words(stripped),
                    None => Seq::empty(),
                }
            };
            let left = words(x) + rest;
            without_parentheses(title) == (if left.len() > 0 {
                Some(joined(left))
            } else {
                None
            })
        }),
{
    lemma_patterns_differ();
    lemma_occurs_grouped(y);
    let blank = seq![' '];
    let title = x + seq!['('] + inner + seq![')'] + y;
    let m = x.len() as int;
    let e = (x.len() + 1 + inner.len()) as int;
    assert(title[m] == '(' && title[e] == ')');
    assert(grouped(title));
    lemma_occurs_grouped(title);
    assert forall|k: int| 0 <= k < x.len() implies #[trigger] x[k] != '(' && title[k] == x[k] by {
        assert(x.contains(x[k]));
    }
    lemma_blanked_before(x, title, 0);
    assert(x.skip(0) =~= x);
    lemma_closing(title, m);
    assert(closing_from(title, m) == e) by {
        let q = closing_from(title, m);
        if q < e {
            if q > m {
                assert(title[q] == inner[q - m - 1]);
                assert(inner.contains(inner[q - m - 1]));
            }
        } else if q > e {
            assert(title[e] != ')');
        }
    }
    lemma_blanked_skip(title, e + 1, 0);
    assert(title.skip(e + 1) =~= y);
    let rest = replaced(PARENTHESES@, y, blank);
    assert(replaced(PARENTHESES@, title, blank) =~= x + blank + rest);
    lemma_words_split(x, ' ', rest);
    law_collapsed(x + blank + rest);
    law_collapsed(rest);
    let stripped = collapsed(x + blank + rest);
    if !grouped(y) {
        lemma_not_blanked(y, 0);
        assert(y.skip(0) =~= y);
    }
    lemma_stripped_differs(title);
    lemma_length_of_joined(words(x) + words(rest), x + blank + rest);
    lemma_length_of_joined(words(rest), rest);
    if grouped(y) {
        lemma_stripped_differs(y);
    }
}

/// A stripped title differs from one that has a part in parentheses.
proof fn lemma_stripped_differs(title: Seq<char>)
    requires
        grouped(title),
    ensures
        collapsed(replaced(PARENTHESES@, title, seq![' '])) != title,
{
    let stripped = collapsed(replaced(PARENTHESES@, title, seq![' ']));
    lemma_occurs_grouped(title);
    if stripped == title {
        lemma_stripped_ungrouped(title);
    }
}

/// The words of a text are none if and only if nothing is left of it where it is collapsed.
proof fn lemma_length_of_joined(ws: Seq<Seq<char>>, s: Seq<char>)
    requires
        ws == words(s),
    ensures
        ws.len() == 0 <==> joined(ws).len() == 0,
{
    lemma_no_words(s);
}

/// Separators of artists and parts in parentheses are found by these patterns.
pub proof fn law_patterns(pattern: Seq<char>)
    ensures
        pattern == SEPARATORS@ <==> pattern == r"(?i)\b(?:and|plus)\b|[&+]"@,
        pattern == PARENTHESES@ <==> pattern == r"\([^)]*\)"@,
{
}

} // verus!
