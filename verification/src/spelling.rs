//! That the spellings of an artist's name name one artist, and that a title is stripped once.

use crate::fallback::{artist_key, same_artist, title_key};
use crate::lookup::{searched_artists, without_repeats};
use crate::names::{
    other_than, separator_forms, separators_unified, spaced, spellings, variant, variants,
    without_parentheses,
};
use crate::patterns::{
    closing_from, folds_to, is_word_character, match_length, occurs, replaced, replaced_from,
    separator_length, word_at, PARENTHESES, SEPARATORS,
};
use crate::text::{
    collapsed, is_name_character, is_white_space, is_word, law_collapsed,
    lemma_collapsed_characters, lemma_collapsed_grow, lemma_words_of_word, lemma_words_split, words,
};
use crate::tools::{LyricsPresence, TextModel};
use vstd::prelude::*;

verus! {

/// Whether a character is no part of a word or of a separator, as white space and a comma are.
pub open spec fn is_mark(c: char) -> bool {
    !is_word_character(c) && c != '&' && c != '+'
}

/// White space is a mark.
proof fn lemma_white_space_is_mark(c: char)
    requires
        is_white_space(c),
    ensures
        is_mark(c),
{
}

/// What is no part of a word is no letter of a separator.
proof fn lemma_mark_apart(c: char)
    requires
        !is_word_character(c),
    ensures
        forall|letter: char| 'a' <= letter <= 'z' ==> !#[trigger] folds_to(c, letter),
{
}

/// A word stands on the left of what is no part of a word as if the text ended there.
proof fn lemma_word_left(x: Seq<char>, c: char, y: Seq<char>, i: int, w: Seq<char>)
    requires
        !is_word_character(c),
        0 <= i < x.len(),
        forall|k: int| 0 <= k < w.len() ==> 'a' <= #[trigger] w[k] <= 'z',
    ensures
        word_at(x + seq![c] + y, i, w) == word_at(x, i, w),
{
    let z = x + seq![c] + y;
    lemma_mark_apart(c);
    assert(forall|k: int| 0 <= k < x.len() ==> z[k] == x[k]);
    assert(z[x.len() as int] == c);
    if word_at(z, i, w) {
        if i + w.len() > x.len() {
            let k = x.len() - i;
            assert(folds_to(z[i + k], w[k]));
        }
        assert forall|k: int| 0 <= k < w.len() implies folds_to(#[trigger] x[i + k], w[k]) by {
            assert(folds_to(z[i + k], w[k]));
        }
    }
    if word_at(x, i, w) {
        assert forall|k: int| 0 <= k < w.len() implies folds_to(#[trigger] z[i + k], w[k]) by {
            assert(folds_to(x[i + k], w[k]));
        }
    }
}

/// A word stands on the right of what is no part of a word as if the text began there.
proof fn lemma_word_right(x: Seq<char>, c: char, y: Seq<char>, j: int, w: Seq<char>)
    requires
        !is_word_character(c),
        0 <= j < y.len(),
    ensures
        word_at(x + seq![c] + y, x.len() + 1 + j, w) == word_at(y, j, w),
{
    let z = x + seq![c] + y;
    let i = x.len() + 1 + j;
    lemma_mark_apart(c);
    assert(forall|k: int| 0 <= k < y.len() ==> z[x.len() + 1 + k] == y[k]);
    assert(z[x.len() as int] == c);
    if word_at(z, i, w) {
        assert forall|k: int| 0 <= k < w.len() implies folds_to(#[trigger] y[j + k], w[k]) by {
            assert(folds_to(z[i + k], w[k]));
        }
        if j > 0 {
            assert(z[i - 1] == y[j - 1]);
        }
        if j + w.len() < y.len() {
            assert(z[i + w.len()] == y[(j + w.len()) as int]);
        }
    }
    if word_at(y, j, w) {
        assert forall|k: int| 0 <= k < w.len() implies folds_to(#[trigger] z[i + k], w[k]) by {
            assert(folds_to(y[j + k], w[k]));
            assert(z[i + k] == y[j + k]);
        }
        if j > 0 {
            assert(z[i - 1] == y[j - 1]);
        }
        if j + w.len() < y.len() {
            assert(z[i + w.len()] == y[(j + w.len()) as int]);
        }
    }
}

/// Separators on the left of what is no part of a word.
pub proof fn lemma_separator_left(x: Seq<char>, c: char, y: Seq<char>, i: int)
    requires
        !is_word_character(c),
        0 <= i < x.len(),
    ensures
        separator_length(x + seq![c] + y, i) == separator_length(x, i),
        i + separator_length(x, i) <= x.len(),
{
    lemma_word_left(x, c, y, i, seq!['a', 'n', 'd']);
    lemma_word_left(x, c, y, i, seq!['p', 'l', 'u', 's']);
}

/// Separators on the right of what is no part of a word.
pub proof fn lemma_separator_right(x: Seq<char>, c: char, y: Seq<char>, j: int)
    requires
        !is_word_character(c),
        0 <= j < y.len(),
    ensures
        separator_length(x + seq![c] + y, x.len() + 1 + j) == separator_length(y, j),
        j + separator_length(y, j) <= y.len(),
{
    lemma_word_right(x, c, y, j, seq!['a', 'n', 'd']);
    lemma_word_right(x, c, y, j, seq!['p', 'l', 'u', 's']);
    assert((x + seq![c] + y)[x.len() + 1 + j] == y[j]);
}

/// No separator begins at a mark.
pub proof fn lemma_separator_middle(s: Seq<char>, i: int)
    requires
        0 <= i < s.len(),
        is_mark(s[i]),
    ensures
        separator_length(s, i) == 0,
{
    lemma_mark_apart(s[i]);
    if word_at(s, i, seq!['a', 'n', 'd']) {
        assert(folds_to(s[i + 0], seq!['a', 'n', 'd'][0]));
    }
    if word_at(s, i, seq!['p', 'l', 'u', 's']) {
        assert(folds_to(s[i + 0], seq!['p', 'l', 'u', 's'][0]));
    }
}

/// Replacing on the right of what is no part of a word.
pub proof fn lemma_replaced_right(x: Seq<char>, c: char, y: Seq<char>, j: int, by: Seq<char>)
    requires
        !is_word_character(c),
        0 <= j <= y.len(),
    ensures
        replaced_from(SEPARATORS@, x + seq![c] + y, x.len() + 1 + j, by) == replaced_from(
            SEPARATORS@,
            y,
            j,
            by,
        ),
    decreases y.len() - j,
{
    if j < y.len() {
        lemma_separator_right(x, c, y, j);
        let n = separator_length(y, j);
        assert((x + seq![c] + y)[x.len() + 1 + j] == y[j]);
        if n > 0 {
            lemma_replaced_right(x, c, y, j + n, by);
        } else {
            lemma_replaced_right(x, c, y, j + 1, by);
        }
    }
}

/// Replacing up to a mark and after it.
proof fn lemma_replaced_left(x: Seq<char>, c: char, y: Seq<char>, i: int, by: Seq<char>)
    requires
        is_mark(c),
        0 <= i <= x.len(),
    ensures
        replaced_from(SEPARATORS@, x + seq![c] + y, i, by) == replaced_from(SEPARATORS@, x, i, by)
            + seq![c] + replaced(SEPARATORS@, y, by),
    decreases x.len() - i,
{
    let z = x + seq![c] + y;
    if i < x.len() {
        lemma_separator_left(x, c, y, i);
        let n = separator_length(x, i);
        assert(z[i] == x[i]);
        if n > 0 {
            lemma_replaced_left(x, c, y, i + n, by);
        } else {
            lemma_replaced_left(x, c, y, i + 1, by);
        }
    } else {
        assert(z[i] == c);
        lemma_separator_middle(z, i);
        lemma_replaced_right(x, c, y, 0, by);
    }
    assert(replaced_from(SEPARATORS@, z, i, by) =~= replaced_from(SEPARATORS@, x, i, by) + seq![c]
        + replaced(SEPARATORS@, y, by));
}

/// A mark parts a text into pieces in which separators are replaced on their own.
pub proof fn lemma_replaced_split(x: Seq<char>, c: char, y: Seq<char>, by: Seq<char>)
    requires
        is_mark(c),
    ensures
        replaced(SEPARATORS@, x + seq![c] + y, by) == replaced(SEPARATORS@, x, by) + seq![c]
            + replaced(SEPARATORS@, y, by),
{
    lemma_replaced_left(x, c, y, 0, by);
}

/// A separator that stands alone is replaced as a whole.
proof fn lemma_form_replaced(k: int, by: Seq<char>)
    requires
        0 <= k < 4,
    ensures
        replaced(SEPARATORS@, separator_forms()[k], by) == by,
{
    reveal_strlit("and");
    reveal_strlit("&");
    reveal_strlit("plus");
    reveal_strlit("+");
    let form = separator_forms()[k];
    let n = form.len() as int;
    if k == 0 {
        assert(word_at(form, 0, seq!['a', 'n', 'd']));
    } else if k == 2 {
        assert(!folds_to('p', 'a'));
        if word_at(form, 0, seq!['a', 'n', 'd']) {
            assert(folds_to(form[0int + 0int], seq!['a', 'n', 'd'][0]));
        }
        assert(word_at(form, 0, seq!['p', 'l', 'u', 's']));
    }
    assert(separator_length(form, 0) == n);
    assert(replaced_from(SEPARATORS@, form, n, by) =~= Seq::empty());
    assert(replaced(SEPARATORS@, form, by) =~= by);
}

/// It does not matter how the separator between two artists is written: two names that differ in
/// it alone name the same artist.
pub proof fn law_separators_alike(a: Seq<char>, b: Seq<char>, j: int, k: int, model: TextModel)
    requires
        0 <= j < 4,
        0 <= k < 4,
    ensures
        artist_key(a + seq![' '] + separator_forms()[j] + seq![' '] + b, model) == artist_key(
            a + seq![' '] + separator_forms()[k] + seq![' '] + b,
            model,
        ),
{
    let by = " and "@;
    let f = separator_forms()[j];
    let g = separator_forms()[k];
    lemma_form_replaced(j, by);
    lemma_form_replaced(k, by);
    lemma_replaced_split(a + seq![' '] + f, ' ', b, by);
    lemma_replaced_split(a + seq![' '] + g, ' ', b, by);
    lemma_replaced_split(a, ' ', f, by);
    lemma_replaced_split(a, ' ', g, by);
}

/// A mark, such as a comma, parts an artist's name into pieces in which separators are unified on
/// their own.
pub proof fn law_marks_part(a: Seq<char>, c: char, b: Seq<char>)
    requires
        is_mark(c),
    ensures
        separators_unified(a + seq![c] + b) == separators_unified(a) + seq![c]
            + separators_unified(b),
{
    lemma_replaced_split(a, c, b, " and "@);
}

/// Whether it makes no difference to the comparison of names that `c` stands before a space.
pub open spec fn overlooks(c: char, model: TextModel) -> bool {
    forall|a: Seq<char>, b: Seq<char>| #[trigger]
        title_key(a + seq![c] + seq![' '] + b, model) == title_key(a + seq![' '] + b, model)
}

/// It does not matter whether a comma, or another mark that is overlooked where names are compared,
/// stands between the words of an artist's name, wherever its separators are.
pub proof fn law_marks_alike(a: Seq<char>, c: char, b: Seq<char>, model: TextModel)
    requires
        is_mark(c),
        overlooks(c, model),
    ensures
        artist_key(a + seq![c] + seq![' '] + b, model) == artist_key(a + seq![' '] + b, model),
{
    let x = separators_unified(a);
    let y = separators_unified(b);
    let none = Seq::<char>::empty();
    law_marks_part(a + seq![c], ' ', b);
    assert(a + seq![c] + none =~= a + seq![c]);
    law_marks_part(a, c, none);
    assert(separators_unified(none) =~= none);
    law_marks_part(a, ' ', b);
    assert(separators_unified(a + seq![c] + seq![' '] + b) =~= x + seq![c] + seq![' '] + y);
    assert(title_key(x + seq![c] + seq![' '] + y, model) == title_key(x + seq![' '] + y, model));
}

/// A text in which each character is written as `f` says: as one character, as several or as none.
pub open spec fn rewritten(f: spec_fn(char) -> Seq<char>, s: Seq<char>) -> Seq<char>
    decreases s.len(),
{
    if s.len() == 0 {
        Seq::empty()
    } else {
        rewritten(f, s.drop_last()) + f(s.last())
    }
}

/// The functions of an application that prepares names character by character.
pub open spec fn by_character(
    f: spec_fn(char) -> Seq<char>,
    presence: spec_fn(Seq<char>) -> Option<LyricsPresence>,
) -> TextModel {
    TextModel { prepared: |s: Seq<char>| rewritten(f, s), presence }
}

/// Two texts are rewritten one after the other.
proof fn lemma_rewritten_add(f: spec_fn(char) -> Seq<char>, a: Seq<char>, b: Seq<char>)
    ensures
        rewritten(f, a + b) == rewritten(f, a) + rewritten(f, b),
    decreases b.len(),
{
    if b.len() == 0 {
        assert(a + b =~= a);
        assert(rewritten(f, a) + rewritten(f, b) =~= rewritten(f, a));
    } else {
        lemma_rewritten_add(f, a, b.drop_last());
        assert((a + b).drop_last() =~= a + b.drop_last());
        assert(rewritten(f, a + b) =~= rewritten(f, a) + rewritten(f, b));
    }
}

/// One character is rewritten as `f` says.
proof fn lemma_rewritten_one(f: spec_fn(char) -> Seq<char>, c: char)
    ensures
        rewritten(f, seq![c]) == f(c),
{
    reveal_with_fuel(rewritten, 2);
    assert(seq![c].drop_last() =~= Seq::empty());
    assert(rewritten(f, seq![c]) =~= f(c));
}

/// Blank text at the end has no words.
proof fn lemma_words_before_blank(x: Seq<char>, blank: Seq<char>)
    requires
        forall|i: int| 0 <= i < blank.len() ==> #[trigger] blank[i] == ' ',
    ensures
        words(x + blank) == words(x),
    decreases blank.len(),
{
    if blank.len() == 0 {
        assert(x + blank =~= x);
    } else {
        lemma_words_before_blank(x, blank.drop_last());
        assert((x + blank).drop_last() =~= x + blank.drop_last());
        assert((x + blank).last() == blank[blank.len() - 1]);
    }
}

/// Blank text between two others only parts them.
proof fn lemma_words_around_blank(x: Seq<char>, blank: Seq<char>, y: Seq<char>)
    requires
        blank.len() > 0,
        forall|i: int| 0 <= i < blank.len() ==> #[trigger] blank[i] == ' ',
    ensures
        words(x + blank + y) == words(x) + words(y),
{
    let before = blank.drop_last();
    assert(blank[blank.len() - 1] == ' ');
    assert(x + blank + y =~= (x + before) + seq![' '] + y);
    lemma_words_split(x + before, ' ', y);
    lemma_words_before_blank(x, before);
}

/// Where names are prepared character by character, each character is overlooked before a space
/// that is written without a letter or digit, as long as a space is not left out.
pub proof fn law_overlooked(
    f: spec_fn(char) -> Seq<char>,
    presence: spec_fn(Seq<char>) -> Option<LyricsPresence>,
    c: char,
)
    requires
        forall|i: int| 0 <= i < f(c).len() ==> !is_name_character(#[trigger] f(c)[i]),
        forall|i: int| 0 <= i < f(' ').len() ==> !is_name_character(#[trigger] f(' ')[i]),
        f(' ').len() > 0,
    ensures
        overlooks(c, by_character(f, presence)),
{
    let model = by_character(f, presence);
    assert forall|a: Seq<char>, b: Seq<char>| #[trigger]
        title_key(a + seq![c] + seq![' '] + b, model) == title_key(a + seq![' '] + b, model) by {
        let x = rewritten(f, a);
        let y = rewritten(f, b);
        lemma_rewritten_one(f, c);
        lemma_rewritten_one(f, ' ');
        lemma_rewritten_add(f, a + seq![c] + seq![' '], b);
        lemma_rewritten_add(f, a + seq![c], seq![' ']);
        lemma_rewritten_add(f, a, seq![c]);
        lemma_rewritten_add(f, a + seq![' '], b);
        lemma_rewritten_add(f, a, seq![' ']);
        assert(spaced(x + f(c) + f(' ') + y) =~= spaced(x) + spaced(f(c) + f(' ')) + spaced(y));
        assert(spaced(x + f(' ') + y) =~= spaced(x) + spaced(f(' ')) + spaced(y));
        lemma_words_around_blank(spaced(x), spaced(f(c) + f(' ')), spaced(y));
        lemma_words_around_blank(spaced(x), spaced(f(' ')), spaced(y));
    }
}

/// Whether two characters count as the same in a name: they are written with the same letters and
/// digits at the same places.
pub open spec fn same_in_names(f: spec_fn(char) -> Seq<char>, c: char, d: char) -> bool {
    spaced(f(c)) == spaced(f(d))
}

/// Texts of characters that count as the same are the same but for what is blanked.
proof fn lemma_rewritten_alike(f: spec_fn(char) -> Seq<char>, a: Seq<char>, b: Seq<char>)
    requires
        a.len() == b.len(),
        forall|i: int| 0 <= i < a.len() ==> same_in_names(f, #[trigger] a[i], b[i]),
    ensures
        spaced(rewritten(f, a)) == spaced(rewritten(f, b)),
    decreases a.len(),
{
    if a.len() > 0 {
        let x = a.drop_last();
        let y = b.drop_last();
        assert forall|i: int| 0 <= i < x.len() implies same_in_names(f, #[trigger] x[i], y[i]) by {
            assert(same_in_names(f, a[i], b[i]));
        }
        lemma_rewritten_alike(f, x, y);
        assert(same_in_names(f, a[a.len() - 1], b[b.len() - 1]));
        assert(spaced(rewritten(f, a)) =~= spaced(rewritten(f, x)) + spaced(f(a.last())));
        assert(spaced(rewritten(f, b)) =~= spaced(rewritten(f, y)) + spaced(f(b.last())));
    }
}

/// Where names are prepared character by character, titles are the same that differ only in
/// characters that are prepared to the same letters and digits, or to none: in the case of letters
/// or in the style of apostrophes.
pub proof fn law_titles_alike(
    f: spec_fn(char) -> Seq<char>,
    presence: spec_fn(Seq<char>) -> Option<LyricsPresence>,
    a: Seq<char>,
    b: Seq<char>,
)
    requires
        a.len() == b.len(),
        forall|i: int| 0 <= i < a.len() ==> same_in_names(f, #[trigger] a[i], b[i]),
    ensures
        title_key(a, by_character(f, presence)) == title_key(b, by_character(f, presence)),
{
    lemma_rewritten_alike(f, a, b);
}

/// Unifying separators at the same places keeps texts the same but for what is blanked.
proof fn lemma_unified_alike(f: spec_fn(char) -> Seq<char>, a: Seq<char>, b: Seq<char>, i: int)
    requires
        0 <= i,
        a.len() == b.len(),
        forall|k: int| 0 <= k < a.len() ==> same_in_names(f, #[trigger] a[k], b[k]),
        forall|k: int|
            0 <= k < a.len() ==> #[trigger] separator_length(a, k) == separator_length(b, k),
    ensures
        spaced(rewritten(f, replaced_from(SEPARATORS@, a, i, " and "@))) == spaced(
            rewritten(f, replaced_from(SEPARATORS@, b, i, " and "@)),
        ),
    decreases if i < a.len() { a.len() - i } else { 0 },
{
    let by = " and "@;
    if i < a.len() {
        assert(separator_length(a, i) == separator_length(b, i));
        let n = separator_length(a, i);
        let next = if n > 0 {
            i + n
        } else {
            i + 1
        };
        let x = if n > 0 {
            by
        } else {
            seq![a[i]]
        };
        let y = if n > 0 {
            by
        } else {
            seq![b[i]]
        };
        let u = replaced_from(SEPARATORS@, a, next, by);
        let v = replaced_from(SEPARATORS@, b, next, by);
        lemma_unified_alike(f, a, b, next);
        lemma_rewritten_add(f, x, u);
        lemma_rewritten_add(f, y, v);
        lemma_rewritten_one(f, a[i]);
        lemma_rewritten_one(f, b[i]);
        assert(same_in_names(f, a[i], b[i]));
        assert(spaced(rewritten(f, x)) == spaced(rewritten(f, y)));
        assert(spaced(rewritten(f, x + u)) =~= spaced(rewritten(f, x)) + spaced(rewritten(f, u)));
        assert(spaced(rewritten(f, y + v)) =~= spaced(rewritten(f, y)) + spaced(rewritten(f, v)));
    }
}

/// Where names are prepared character by character, artists are the same whose names have their
/// separators at the same places and differ only in characters that are prepared to the same
/// letters and digits, or to none.
pub proof fn law_artists_alike(
    f: spec_fn(char) -> Seq<char>,
    presence: spec_fn(Seq<char>) -> Option<LyricsPresence>,
    a: Seq<char>,
    b: Seq<char>,
)
    requires
        a.len() == b.len(),
        forall|i: int| 0 <= i < a.len() ==> same_in_names(f, #[trigger] a[i], b[i]),
        forall|i: int|
            0 <= i < a.len() ==> #[trigger] separator_length(a, i) == separator_length(b, i),
    ensures
        artist_key(a, by_character(f, presence)) == artist_key(b, by_character(f, presence)),
{
    lemma_unified_alike(f, a, b, 0);
}

/// The words of a list of pieces, each with its separators unified.
spec fn unified_words(pieces: Seq<Seq<char>>) -> Seq<Seq<char>>
    decreases pieces.len(),
{
    if pieces.len() == 0 {
        Seq::empty()
    } else {
        unified_words(pieces.drop_last()) + words(separators_unified(pieces.last()))
    }
}

/// The words of two lists of pieces, one after the other.
proof fn lemma_unified_words_add(u: Seq<Seq<char>>, v: Seq<Seq<char>>)
    ensures
        unified_words(u + v) == unified_words(u) + unified_words(v),
    decreases v.len(),
{
    if v.len() == 0 {
        assert(u + v =~= u);
        assert(unified_words(u) + unified_words(v) =~= unified_words(u));
    } else {
        lemma_unified_words_add(u, v.drop_last());
        assert((u + v).drop_last() =~= u + v.drop_last());
        assert(unified_words(u + v) =~= unified_words(u) + unified_words(v));
    }
}

/// Separators are unified word by word.
proof fn lemma_unified_by_word(t: Seq<char>)
    ensures
        words(separators_unified(t)) == unified_words(words(t)),
    decreases t.len(),
{
    if exists|p: int| 0 <= p < t.len() && is_white_space(#[trigger] t[p]) {
        let p = choose|p: int| 0 <= p < t.len() && is_white_space(#[trigger] t[p]);
        let x = t.take(p);
        let y = t.skip(p + 1);
        assert(t =~= x + seq![t[p]] + y);
        lemma_unified_by_word(x);
        lemma_unified_by_word(y);
        lemma_white_space_is_mark(t[p]);
        lemma_replaced_split(x, t[p], y, " and "@);
        lemma_words_split(x, t[p], y);
        lemma_words_split(separators_unified(x), t[p], separators_unified(y));
        lemma_unified_words_add(words(x), words(y));
    } else if t.len() > 0 {
        assert(is_word(t));
        lemma_words_of_word(t);
        let none = Seq::<Seq<char>>::empty();
        assert(seq![t].drop_last() =~= none);
        assert(unified_words(none) =~= none);
        assert(seq![t].last() == t);
        assert(unified_words(seq![t]) =~= words(separators_unified(t)));
    } else {
        assert(separators_unified(t) =~= t);
    }
}

/// The place of the first separator at or after `i`; the length of `s` if there is none.
spec fn next_separator(s: Seq<char>, i: int) -> int
    decreases s.len() - i,
{
    if i >= s.len() || separator_length(s, i) > 0 {
        i
    } else {
        next_separator(s, i + 1)
    }
}

/// What is replaced first, and what comes before and after it.
proof fn lemma_next_separator(s: Seq<char>, i: int, by: Seq<char>)
    requires
        0 <= i <= s.len(),
    ensures
        ({
            let m = next_separator(s, i);
            &&& i <= m <= s.len()
            &&& forall|j: int| i <= j < m ==> #[trigger] separator_length(s, j) == 0
            &&& m < s.len() ==> {
                let n = separator_length(s, m);
                &&& n > 0
                &&& m + n <= s.len()
                &&& replaced_from(SEPARATORS@, s, i, by) == s.subrange(i, m) + by + replaced_from(
                    SEPARATORS@,
                    s,
                    m + n,
                    by,
                )
            }
            &&& m == s.len() ==> replaced_from(SEPARATORS@, s, i, by) == s.subrange(i, m)
        }),
    decreases s.len() - i,
{
    let m = next_separator(s, i);
    if i < s.len() && separator_length(s, i) == 0 {
        lemma_next_separator(s, i + 1, by);
        assert(seq![s[i]] + s.subrange(i + 1, m) =~= s.subrange(i, m));
        if m < s.len() {
            let rest = replaced_from(SEPARATORS@, s, m + separator_length(s, m), by);
            assert(replaced_from(SEPARATORS@, s, i, by) =~= s.subrange(i, m) + by + rest);
        }
    } else if i < s.len() {
        assert(s.subrange(i, i) =~= Seq::empty());
        assert(replaced_from(SEPARATORS@, s, i, by) =~= s.subrange(i, i) + by + replaced_from(
            SEPARATORS@,
            s,
            i + separator_length(s, i),
            by,
        ));
    } else {
        assert(replaced_from(SEPARATORS@, s, i, by) =~= s.subrange(i, m));
    }
}

/// No word runs on across the place `i`.
spec fn parted_at(s: Seq<char>, i: int) -> bool {
    i == 0 || i == s.len() || !is_word_character(s[i - 1]) || !is_word_character(s[i])
}

/// A word that stands in a piece between two parted places stands in the whole.
proof fn lemma_word_in_piece(s: Seq<char>, i: int, m: int, j: int, w: Seq<char>)
    requires
        0 <= i <= j < m <= s.len(),
        parted_at(s, i),
        parted_at(s, m),
        w.len() > 0,
        forall|k: int| 0 <= k < w.len() ==> 'a' <= #[trigger] w[k] <= 'z',
        word_at(s.subrange(i, m), j - i, w),
    ensures
        word_at(s, j, w),
{
    let u = s.subrange(i, m);
    assert forall|k: int| 0 <= k < w.len() implies folds_to(#[trigger] s[j + k], w[k])
        && is_word_character(s[j + k]) by {
        assert(folds_to(u[j - i + k], w[k]));
        assert(u[j - i + k] == s[j + k]);
    }
    assert(is_word_character(s[j + 0]));
    let last = w.len() - 1;
    assert(is_word_character(s[j + last]));
    if j > i {
        assert(u[j - i - 1] == s[j - 1]);
    }
    if j + w.len() < m {
        assert(u[(j - i + w.len()) as int] == s[(j + w.len()) as int]);
    }
}

/// A text without separators stays as it is.
pub proof fn lemma_nothing_replaced(u: Seq<char>, i: int, by: Seq<char>)
    requires
        0 <= i <= u.len(),
        forall|j: int| 0 <= j < u.len() ==> #[trigger] separator_length(u, j) == 0,
    ensures
        replaced_from(SEPARATORS@, u, i, by) == u.skip(i),
    decreases u.len() - i,
{
    if i < u.len() {
        assert(separator_length(u, i) == 0);
        lemma_nothing_replaced(u, i + 1, by);
        assert(seq![u[i]] + u.skip(i + 1) =~= u.skip(i));
    } else {
        assert(replaced_from(SEPARATORS@, u, i, by) =~= u.skip(i));
    }
}

/// The piece before the first separator holds none.
proof fn lemma_piece_unified(s: Seq<char>, i: int)
    requires
        0 <= i <= s.len(),
        parted_at(s, i),
    ensures
        ({
            let m = next_separator(s, i);
            &&& parted_at(s, m)
            &&& separators_unified(s.subrange(i, m)) == s.subrange(i, m)
        }),
{
    let by = " and "@;
    let m = next_separator(s, i);
    let u = s.subrange(i, m);
    lemma_next_separator(s, i, by);
    if m < s.len() && m > 0 && s[m] != '&' && s[m] != '+' {
        assert(word_at(s, m, seq!['a', 'n', 'd']) || word_at(s, m, seq!['p', 'l', 'u', 's']));
        assert(!is_word_character(s[m - 1]));
    }
    assert forall|j: int| 0 <= j < u.len() implies #[trigger] separator_length(u, j) == 0 by {
        assert(u[j] == s[i + j]);
        assert(separator_length(s, i + j) == 0);
        if word_at(u, j, seq!['a', 'n', 'd']) {
            lemma_word_in_piece(s, i, m, i + j, seq!['a', 'n', 'd']);
        }
        if word_at(u, j, seq!['p', 'l', 'u', 's']) {
            lemma_word_in_piece(s, i, m, i + j, seq!['p', 'l', 'u', 's']);
        }
    }
    lemma_nothing_replaced(u, 0, by);
    assert(u.skip(0) =~= u);
}

/// A text is parted at the end of a separator.
proof fn lemma_parted_after(s: Seq<char>, m: int)
    requires
        0 <= m < s.len(),
        separator_length(s, m) > 0,
    ensures
        parted_at(s, m + separator_length(s, m)),
{
}

/// From a parted place on, writing the separators as `form` and unifying them then gives the words
/// that unifying them at once gives.
proof fn lemma_variant_words(s: Seq<char>, i: int, k: int)
    requires
        0 <= i <= s.len(),
        parted_at(s, i),
        0 <= k < 4,
    ensures
        words(
            separators_unified(
                replaced_from(
                    SEPARATORS@,
                    s,
                    i,
                    seq![' '] + separator_forms()[k] + seq![' '],
                ),
            ),
        ) == words(replaced_from(SEPARATORS@, s, i, " and "@)),
    decreases s.len() - i,
{
    let by = " and "@;
    let form = separator_forms()[k];
    let padded = seq![' '] + form + seq![' '];
    let m = next_separator(s, i);
    let u = s.subrange(i, m);
    lemma_next_separator(s, i, by);
    lemma_next_separator(s, i, padded);
    lemma_piece_unified(s, i);
    if m < s.len() {
        let e = m + separator_length(s, m);
        lemma_parted_after(s, m);
        lemma_variant_words(s, e, k);
        let rest = replaced_from(SEPARATORS@, s, e, padded);
        let unified = replaced_from(SEPARATORS@, s, e, by);
        reveal_strlit(" and ");
        let word = seq!['a', 'n', 'd'];
        assert(by =~= seq![' '] + word + seq![' ']);
        // The varied text and what becomes of it.
        assert(u + padded + rest =~= (u + seq![' '] + form) + seq![' '] + rest);
        lemma_replaced_split(u + seq![' '] + form, ' ', rest, by);
        lemma_replaced_split(u, ' ', form, by);
        lemma_form_replaced(k, by);
        lemma_words_split(u + seq![' '] + by, ' ', separators_unified(rest));
        lemma_words_split(u, ' ', by);
        // The text that was unified at once.
        assert(u + by + unified =~= (u + seq![' '] + word) + seq![' '] + unified);
        lemma_words_split(u + seq![' '] + word, ' ', unified);
        lemma_words_split(u, ' ', word);
        assert(words(by) == words(word)) by {
            assert(by =~= (seq![' '] + word) + seq![' '] + Seq::<char>::empty());
            lemma_words_split(seq![' '] + word, ' ', Seq::empty());
            assert(seq![' '] + word =~= Seq::<char>::empty() + seq![' '] + word);
            lemma_words_split(Seq::empty(), ' ', word);
            assert(words(Seq::<char>::empty()) =~= Seq::<Seq<char>>::empty());
            assert(words(by) =~= words(word));
        }
    }
}

/// With the separators unified, a variant of an artist's name has the words that the name has.
proof fn lemma_variant_alike(artist: Seq<char>, k: int)
    requires
        0 <= k < 4,
    ensures
        collapsed(separators_unified(variant(artist, separator_forms()[k]))) == collapsed(
            separators_unified(artist),
        ),
{
    let padded = seq![' '] + separator_forms()[k] + seq![' '];
    let varied = replaced(SEPARATORS@, artist, padded);
    lemma_variant_words(artist, 0, k);
    lemma_unified_by_word(varied);
    lemma_unified_by_word(collapsed(varied));
    law_collapsed(varied);
}

/// What passes a filter was there before.
proof fn lemma_filter_from(s: Seq<Seq<char>>, pred: spec_fn(Seq<char>) -> bool, i: int)
    requires
        0 <= i < s.filter(pred).len(),
    ensures
        s.contains(s.filter(pred)[i]),
    decreases s.len(),
{
    reveal(Seq::filter);
    if s.len() > 0 {
        let before = s.drop_last();
        if i < before.filter(pred).len() {
            lemma_filter_from(before, pred, i);
            let k = choose|k: int| 0 <= k < before.len() && before[k] == before.filter(pred)[i];
            assert(s[k] == s.filter(pred)[i]);
        } else {
            assert(s[s.len() - 1] == s.filter(pred)[i]);
        }
    }
}

/// Every name under which an artist is searched for names that artist: with the separators
/// unified, it has the same words.
pub proof fn law_searched_names_alike(artist: Seq<char>, i: int)
    requires
        0 <= i < searched_artists(artist).len(),
    ensures
        collapsed(separators_unified(searched_artists(artist)[i])) == collapsed(
            separators_unified(artist),
        ),
{
    let name = searched_artists(artist)[i];
    law_searched_artists(artist);
    if i > 0 {
        assert(name == variants(artist)[i - 1]);
        let all = spellings(artist);
        lemma_filter_from(all, other_than(artist), i - 1);
        let k = choose|k: int| 0 <= k < all.len() && all[k] == name;
        lemma_variant_alike(artist, k);
    }
}

/// Whether names that differ in white space alone are the same to the comparison.
pub open spec fn ignores_spacing(model: TextModel) -> bool {
    forall|a: Seq<char>, b: Seq<char>|
        #![trigger title_key(a, model), title_key(b, model)]
        collapsed(a) == collapsed(b) ==> title_key(a, model) == title_key(b, model)
}

/// The words of a list of pieces, each rewritten and blanked.
spec fn rewritten_words(f: spec_fn(char) -> Seq<char>, pieces: Seq<Seq<char>>) -> Seq<Seq<char>>
    decreases pieces.len(),
{
    if pieces.len() == 0 {
        Seq::empty()
    } else {
        rewritten_words(f, pieces.drop_last()) + words(spaced(rewritten(f, pieces.last())))
    }
}

/// The words of two lists of pieces, one after the other.
proof fn lemma_rewritten_words_add(
    f: spec_fn(char) -> Seq<char>,
    u: Seq<Seq<char>>,
    v: Seq<Seq<char>>,
)
    ensures
        rewritten_words(f, u + v) == rewritten_words(f, u) + rewritten_words(f, v),
    decreases v.len(),
{
    if v.len() == 0 {
        assert(u + v =~= u);
        assert(rewritten_words(f, u) + rewritten_words(f, v) =~= rewritten_words(f, u));
    } else {
        lemma_rewritten_words_add(f, u, v.drop_last());
        assert((u + v).drop_last() =~= u + v.drop_last());
        assert(rewritten_words(f, u + v) =~= rewritten_words(f, u) + rewritten_words(f, v));
    }
}

/// Whether white space is written without a letter or digit, and not left out.
pub open spec fn keeps_blanks(f: spec_fn(char) -> Seq<char>) -> bool {
    forall|c: char| #[trigger]
        is_white_space(c) ==> f(c).len() > 0 && forall|i: int|
            0 <= i < f(c).len() ==> !is_name_character(#[trigger] f(c)[i])
}

/// A text is rewritten word by word.
proof fn lemma_rewritten_by_word(f: spec_fn(char) -> Seq<char>, t: Seq<char>)
    requires
        keeps_blanks(f),
    ensures
        words(spaced(rewritten(f, t))) == rewritten_words(f, words(t)),
    decreases t.len(),
{
    if exists|p: int| 0 <= p < t.len() && is_white_space(#[trigger] t[p]) {
        let p = choose|p: int| 0 <= p < t.len() && is_white_space(#[trigger] t[p]);
        let x = t.take(p);
        let y = t.skip(p + 1);
        assert(t =~= x + seq![t[p]] + y);
        lemma_rewritten_by_word(f, x);
        lemma_rewritten_by_word(f, y);
        lemma_rewritten_add(f, x + seq![t[p]], y);
        lemma_rewritten_add(f, x, seq![t[p]]);
        lemma_rewritten_one(f, t[p]);
        assert(spaced(rewritten(f, t)) =~= spaced(rewritten(f, x)) + spaced(f(t[p])) + spaced(
            rewritten(f, y),
        ));
        lemma_words_around_blank(
            spaced(rewritten(f, x)),
            spaced(f(t[p])),
            spaced(rewritten(f, y)),
        );
        lemma_words_split(x, t[p], y);
        lemma_rewritten_words_add(f, words(x), words(y));
    } else if t.len() > 0 {
        assert(is_word(t));
        lemma_words_of_word(t);
        let none = Seq::<Seq<char>>::empty();
        assert(seq![t].drop_last() =~= none);
        assert(rewritten_words(f, none) =~= none);
        assert(seq![t].last() == t);
        assert(rewritten_words(f, seq![t]) =~= words(spaced(rewritten(f, t))));
    } else {
        assert(spaced(rewritten(f, t)) =~= t);
    }
}

/// Where names are prepared character by character and white space stays blank, names that differ in
/// white space alone are the same.
pub proof fn law_spacing_ignored(
    f: spec_fn(char) -> Seq<char>,
    presence: spec_fn(Seq<char>) -> Option<LyricsPresence>,
)
    requires
        keeps_blanks(f),
    ensures
        ignores_spacing(by_character(f, presence)),
{
    let model = by_character(f, presence);
    assert forall|a: Seq<char>, b: Seq<char>|
        #![trigger title_key(a, model), title_key(b, model)]
        collapsed(a) == collapsed(b) implies title_key(a, model) == title_key(b, model) by {
        law_collapsed(a);
        law_collapsed(b);
        lemma_rewritten_by_word(f, a);
        lemma_rewritten_by_word(f, b);
    }
}

/// Where white space makes no difference to the comparison, a track under any name that is searched
/// for counts as one by the artist.
pub proof fn law_searched_names_accepted(artist: Seq<char>, i: int, model: TextModel)
    requires
        0 <= i < searched_artists(artist).len(),
        ignores_spacing(model),
    ensures
        same_artist(Some(searched_artists(artist)[i]), artist, model),
{
    let name = searched_artists(artist)[i];
    law_searched_names_alike(artist, i);
    assert(title_key(separators_unified(name), model) == title_key(
        separators_unified(artist),
        model,
    ));
}

/// Where a separator occurs, one is the first.
proof fn lemma_separator_found(s: Seq<char>)
    requires
        occurs(SEPARATORS@, s),
    ensures
        next_separator(s, 0) < s.len(),
{
    let i = choose|i: int| 0 <= i < s.len() && #[trigger] match_length(SEPARATORS@, s, i) > 0;
    lemma_next_separator(s, 0, Seq::empty());
    assert(separator_length(s, i) > 0);
}

/// The words of a variant: those before the first separator, then the separator's form.
proof fn lemma_variant_word(artist: Seq<char>, k: int)
    requires
        occurs(SEPARATORS@, artist),
        0 <= k < 4,
    ensures
        ({
            let before = words(artist.take(next_separator(artist, 0)));
            let all = words(variant(artist, separator_forms()[k]));
            before.len() < all.len() && all[before.len() as int] == separator_forms()[k]
        }),
{
    reveal_strlit("and");
    reveal_strlit("&");
    reveal_strlit("plus");
    reveal_strlit("+");
    let form = separator_forms()[k];
    let padded = seq![' '] + form + seq![' '];
    let m = next_separator(artist, 0);
    let u = artist.take(m);
    lemma_separator_found(artist);
    lemma_next_separator(artist, 0, padded);
    assert(artist.subrange(0, m) =~= u);
    let rest = replaced_from(SEPARATORS@, artist, m + separator_length(artist, m), padded);
    let varied = replaced(SEPARATORS@, artist, padded);
    assert(varied =~= (u + seq![' '] + form) + seq![' '] + rest);
    lemma_words_split(u + seq![' '] + form, ' ', rest);
    lemma_words_split(u, ' ', form);
    assert(is_word(form));
    lemma_words_of_word(form);
    law_collapsed(varied);
    assert(words(varied) =~= words(u) + seq![form] + words(rest));
}

/// An artist's name with a separator is spelled in four different ways.
proof fn lemma_spellings_differ(artist: Seq<char>)
    requires
        occurs(SEPARATORS@, artist),
    ensures
        spellings(artist).no_duplicates(),
{
    reveal_strlit("and");
    reveal_strlit("&");
    reveal_strlit("plus");
    reveal_strlit("+");
    let forms = separator_forms();
    assert forall|j: int, k: int| 0 <= j < k < 4 implies forms[j] != forms[k] by {
        assert(forms[0][0] == 'a' && forms[1][0] == '&' && forms[2][0] == 'p' && forms[3][0]
            == '+');
    }
    assert forall|j: int, k: int| 0 <= j < 4 && 0 <= k < 4 && j != k implies spellings(artist)[j]
        != spellings(artist)[k] by {
        lemma_variant_word(artist, j);
        lemma_variant_word(artist, k);
        assert(forms[j] != forms[k]);
    }
}

/// Of names that all differ, at most one is the given one.
proof fn lemma_others(s: Seq<Seq<char>>, name: Seq<char>)
    requires
        s.no_duplicates(),
    ensures
        s.filter(other_than(name)).no_duplicates(),
        s.filter(other_than(name)).len() >= s.len() - 1,
        !s.contains(name) ==> s.filter(other_than(name)) == s,
    decreases s.len(),
{
    reveal(Seq::filter);
    let other = other_than(name);
    if s.len() > 0 {
        let before = s.drop_last();
        let last = s.last();
        lemma_others(before, name);
        assert(before.push(last) =~= s);
        if before.contains(name) {
            let k = choose|k: int| 0 <= k < before.len() && before[k] == name;
            assert(s[k] == name);
        }
        if other(last) {
            let kept = before.filter(other);
            assert(s.filter(other) == kept.push(last));
            assert forall|i: int| 0 <= i < kept.len() implies kept[i] != last by {
                lemma_filter_from(before, other, i);
                let k = choose|k: int| 0 <= k < before.len() && before[k] == kept[i];
                assert(s[k] == kept[i]);
            }
        } else {
            assert(s[s.len() - 1] == name);
            if before.contains(name) {
                let k = choose|k: int| 0 <= k < before.len() && before[k] == name;
                assert(s[k] == name);
            }
        }
    }
}

/// The variants of an artist's name differ from it and from each other. There are three or four; a
/// name without a separator has none.
pub proof fn law_variants(artist: Seq<char>)
    ensures
        forall|i: int| 0 <= i < variants(artist).len() ==> #[trigger] variants(artist)[i] != artist,
        variants(artist).no_duplicates(),
        occurs(SEPARATORS@, artist) ==> 3 <= variants(artist).len() <= 4,
        !occurs(SEPARATORS@, artist) ==> variants(artist).len() == 0,
{
    let all = spellings(artist);
    let other = other_than(artist);
    all.lemma_filter_len(other);
    if occurs(SEPARATORS@, artist) {
        lemma_spellings_differ(artist);
        lemma_others(all, artist);
    }
    assert forall|i: int| 0 <= i < variants(artist).len() implies #[trigger] variants(artist)[i]
        != artist by {
        all.lemma_filter_pred(other, i);
    }
}

/// Names that all differ have no repeats.
proof fn lemma_no_repeats(list: Seq<Seq<char>>)
    requires
        list.no_duplicates(),
    ensures
        without_repeats(list) == list,
    decreases list.len(),
{
    if list.len() > 0 {
        let before = list.drop_last();
        lemma_no_repeats(before);
        if before.len() > 0 {
            assert(before.last() == list[list.len() - 2]);
        }
        assert(before.push(list.last()) =~= list);
    }
}

/// An artist is searched for under the given name first and then under each variant of it, under
/// each name once.
pub proof fn law_searched_artists(artist: Seq<char>)
    ensures
        searched_artists(artist) == seq![artist] + variants(artist),
        searched_artists(artist).no_duplicates(),
        1 <= searched_artists(artist).len() <= 5,
        searched_artists(artist)[0] == artist,
{
    law_variants(artist);
    let list = seq![artist] + variants(artist);
    assert forall|i: int, j: int| 0 <= i < list.len() && 0 <= j < list.len() && i != j implies list[i]
        != list[j] by {
        if i > 0 {
            assert(list[i] == variants(artist)[i - 1]);
        }
        if j > 0 {
            assert(list[j] == variants(artist)[j - 1]);
        }
    }
    lemma_no_repeats(list);
}

/// The two patterns are not the same.
pub proof fn lemma_patterns_differ()
    ensures
        PARENTHESES@ != SEPARATORS@,
{
    reveal_strlit(r"(?i)\b(?:and|plus)\b|[&+]");
    reveal_strlit(r"\([^)]*\)");
    assert(PARENTHESES@.len() != SEPARATORS@.len());
}

/// Whether an opening parenthesis comes before a closing one.
pub open spec fn grouped(s: Seq<char>) -> bool {
    exists|p: int, q: int| 0 <= p < q < s.len() && #[trigger] s[p] == '(' && #[trigger] s[q] == ')'
}

/// The first closing parenthesis is one, and none comes before it.
pub proof fn lemma_closing(s: Seq<char>, i: int)
    requires
        0 <= i <= s.len(),
    ensures
        i <= closing_from(s, i) <= s.len(),
        closing_from(s, i) < s.len() ==> s[closing_from(s, i)] == ')',
        forall|j: int| i <= j < closing_from(s, i) ==> #[trigger] s[j] != ')',
    decreases s.len() - i,
{
    if i < s.len() && s[i] != ')' {
        lemma_closing(s, i + 1);
    }
}

/// A part in parentheses is an opening parenthesis with a closing one after it.
pub proof fn lemma_occurs_grouped(s: Seq<char>)
    ensures
        occurs(PARENTHESES@, s) == grouped(s),
{
    lemma_patterns_differ();
    if occurs(PARENTHESES@, s) {
        let i = choose|i: int|
            0 <= i < s.len() && #[trigger] match_length(PARENTHESES@, s, i) > 0;
        lemma_closing(s, i);
        assert(s[i] == '(' && s[closing_from(s, i)] == ')');
    }
    if grouped(s) {
        let (p, q) = choose|p: int, q: int|
            0 <= p < q < s.len() && #[trigger] s[p] == '(' && #[trigger] s[q] == ')';
        lemma_closing(s, p);
        assert(closing_from(s, p) < s.len());
        assert(match_length(PARENTHESES@, s, p) > 0);
    }
}

/// What is left of a text from `i` on is made of its characters from there on, and spaces.
proof fn lemma_blanked_characters(s: Seq<char>, i: int)
    requires
        0 <= i,
    ensures
        forall|k: int|
            0 <= k < replaced_from(PARENTHESES@, s, i, seq![' ']).len() ==> {
                let c = #[trigger] replaced_from(PARENTHESES@, s, i, seq![' '])[k];
                c == ' ' || exists|j: int| i <= j < s.len() && s[j] == c
            },
    decreases if i < s.len() { s.len() - i } else { 0 },
{
    if i < s.len() {
        let n = match_length(PARENTHESES@, s, i);
        let next = if n > 0 {
            i + n
        } else {
            i + 1
        };
        lemma_blanked_characters(s, next);
        let rest = replaced_from(PARENTHESES@, s, next, seq![' ']);
        let all = replaced_from(PARENTHESES@, s, i, seq![' ']);
        assert forall|k: int| 0 <= k < all.len() implies {
            let c = #[trigger] all[k];
            c == ' ' || exists|j: int| i <= j < s.len() && s[j] == c
        } by {
            if k > 0 {
                assert(all[k] == rest[k - 1]);
            }
        }
    }
}

/// Where the parts in parentheses are blanked out, none is left.
proof fn lemma_blanked_ungrouped(s: Seq<char>, i: int)
    requires
        0 <= i,
    ensures
        !grouped(replaced_from(PARENTHESES@, s, i, seq![' '])),
    decreases if i < s.len() { s.len() - i } else { 0 },
{
    lemma_patterns_differ();
    if i < s.len() {
        let n = match_length(PARENTHESES@, s, i);
        let next = if n > 0 {
            i + n
        } else {
            i + 1
        };
        lemma_blanked_ungrouped(s, next);
        lemma_blanked_characters(s, next);
        lemma_closing(s, i);
        let rest = replaced_from(PARENTHESES@, s, next, seq![' ']);
        let all = replaced_from(PARENTHESES@, s, i, seq![' ']);
        if grouped(all) {
            let (p, q) = choose|p: int, q: int|
                0 <= p < q < all.len() && #[trigger] all[p] == '(' && #[trigger] all[q] == ')';
            assert(all[q] == rest[q - 1]);
            if p > 0 {
                assert(all[p] == rest[p - 1]);
                assert(grouped(rest));
            } else {
                assert(s[i] == '(' && n == 0);
                assert(closing_from(s, i) == s.len());
                assert(exists|j: int| next <= j < s.len() && s[j] == rest[q - 1]);
            }
        }
    }
}

/// Collapsing puts no characters in another order.
proof fn lemma_collapsed_ungrouped(s: Seq<char>)
    requires
        !grouped(s),
    ensures
        !grouped(collapsed(s)),
    decreases s.len(),
{
    if s.len() > 0 {
        let before = s.drop_last();
        let c = s.last();
        assert(before.push(c) =~= s);
        if grouped(before) {
            let (p, q) = choose|p: int, q: int|
                0 <= p < q < before.len() && #[trigger] before[p] == '(' && #[trigger] before[q]
                    == ')';
            assert(s[p] == '(' && s[q] == ')');
        }
        lemma_collapsed_ungrouped(before);
        lemma_collapsed_grow(before, c);
        lemma_collapsed_characters(before);
        if grouped(collapsed(s)) {
            let t = collapsed(s);
            let b = collapsed(before);
            let (p, q) = choose|p: int, q: int|
                0 <= p < q < t.len() && #[trigger] t[p] == '(' && #[trigger] t[q] == ')';
            if q < b.len() {
                assert(b[p] == '(' && b[q] == ')');
            } else {
                assert(c == ')');
                assert(b[p] == '(');
                let k = choose|k: int| 0 <= k < before.len() && before[k] == '(';
                assert(s[k] == '(' && s[s.len() - 1] == ')');
            }
        }
    }
}

/// Where the parts in parentheses are blanked out and the rest is collapsed, none is left.
pub proof fn lemma_stripped_ungrouped(title: Seq<char>)
    ensures
        !grouped(collapsed(replaced(PARENTHESES@, title, seq![' ']))),
{
    lemma_blanked_ungrouped(title, 0);
    lemma_collapsed_ungrouped(replaced(PARENTHESES@, title, seq![' ']));
}

/// A stripped title is not empty, has no part in parentheses left, and is not stripped again.
pub proof fn law_stripped_once(title: Seq<char>)
    requires
        without_parentheses(title) is Some,
    ensures
        without_parentheses(title)->0.len() > 0,
        without_parentheses(title)->0 != title,
        !occurs(PARENTHESES@, without_parentheses(title)->0),
        without_parentheses(without_parentheses(title)->0) is None,
{
    let blanked = replaced(PARENTHESES@, title, seq![' ']);
    lemma_stripped_ungrouped(title);
    lemma_occurs_grouped(collapsed(blanked));
}

} // verus!
