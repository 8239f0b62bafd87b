//! Character-level text handling: whitespace, case and slashes.

use vstd::prelude::*;

verus! {

/// The characters with the Unicode property `White_Space`.
pub open spec fn is_white_space(c: char) -> bool {
    ||| '\u{9}' <= c <= '\u{d}'
    ||| c == ' '
    ||| c == '\u{85}'
    ||| c == '\u{a0}'
    ||| c == '\u{1680}'
    ||| '\u{2000}' <= c <= '\u{200a}'
    ||| c == '\u{2028}'
    ||| c == '\u{2029}'
    ||| c == '\u{202f}'
    ||| c == '\u{205f}'
    ||| c == '\u{3000}'
}

/// The letters and digits of ASCII.
pub open spec fn is_ascii_alphanumeric(c: char) -> bool {
    ||| '0' <= c <= '9'
    ||| 'A' <= c <= 'Z'
    ||| 'a' <= c <= 'z'
}

/// Whether a character outside ASCII is alphabetic or numeric, as `char::is_alphanumeric` says.
pub uninterp spec fn unicode_alphanumeric(c: char) -> bool;

/// The characters that make up a normalized name.
pub open spec fn is_name_character(c: char) -> bool {
    if c <= '\u{7f}' {
        is_ascii_alphanumeric(c)
    } else {
        !is_white_space(c) && unicode_alphanumeric(c)
    }
}

/// The lower-case form of an ASCII capital; every other character itself.
pub open spec fn ascii_lowercase(c: char) -> char {
    if 'A' <= c <= 'Z' {
        ((c as u32) + 32) as char
    } else {
        c
    }
}

/// A text with its ASCII capitals in lower case.
pub open spec fn ascii_lowered(s: Seq<char>) -> Seq<char> {
    s.map_values(|c: char| ascii_lowercase(c))
}

/// A text without the white space at its two ends.
pub open spec fn trimmed(s: Seq<char>) -> Seq<char>
    decreases s.len(),
{
    if s.len() == 0 {
        s
    } else if is_white_space(s.first()) {
        trimmed(s.drop_first())
    } else if is_white_space(s.last()) {
        trimmed(s.drop_last())
    } else {
        s
    }
}

/// A text without the run of `c` at its end.
pub open spec fn without_trailing(s: Seq<char>, c: char) -> Seq<char>
    decreases s.len(),
{
    if s.len() > 0 && s.last() == c {
        without_trailing(s.drop_last(), c)
    } else {
        s
    }
}

/// The maximal runs of characters that are no white space, in order.
pub open spec fn words(s: Seq<char>) -> Seq<Seq<char>>
    decreases s.len(),
{
    if s.len() == 0 {
        Seq::empty()
    } else {
        let before = words(s.drop_last());
        if is_white_space(s.last()) {
            before
        } else if s.len() > 1 && !is_white_space(s[s.len() - 2]) {
            before.drop_last().push(before.last().push(s.last()))
        } else {
            before.push(seq![s.last()])
        }
    }
}

/// Words put together with one space between two of them.
pub open spec fn joined(ws: Seq<Seq<char>>) -> Seq<char>
    decreases ws.len(),
{
    if ws.len() == 0 {
        Seq::empty()
    } else if ws.len() == 1 {
        ws[0]
    } else {
        joined(ws.drop_last()) + seq![' '] + ws.last()
    }
}

/// A text with every run of white space made one space, and none at its ends.
pub open spec fn collapsed(s: Seq<char>) -> Seq<char> {
    joined(words(s))
}

/// The views of a list of strings.
pub open spec fn texts(v: Seq<String>) -> Seq<Seq<char>> {
    v.map_values(|s: String| s@)
}

/// The view of a string that may be missing.
pub open spec fn opt_text(s: Option<String>) -> Option<Seq<char>> {
    match s {
        Some(t) => Some(t@),
        None => None,
    }
}

/// The view of a borrowed string that may be missing.
pub open spec fn text_of(s: Option<&str>) -> Option<Seq<char>> {
    match s {
        Some(t) => Some(t@),
        None => None,
    }
}

/// `char::is_whitespace` tells the Unicode property `White_Space`, whose members are listed in
/// `is_white_space`.
pub assume_specification[ char::is_whitespace ](c: char) -> (r: bool)
    ensures
        r == is_white_space(c),
;

/// `char::is_alphanumeric` holds of the ASCII letters and digits, and of no other ASCII
/// character; outside ASCII its answer is a function of the character, which is only named. No
/// white space is alphabetic or numeric.
pub assume_specification[ char::is_alphanumeric ](c: char) -> (r: bool)
    ensures
        c <= '\u{7f}' ==> r == is_ascii_alphanumeric(c),
        c > '\u{7f}' ==> r == unicode_alphanumeric(c),
        is_white_space(c) ==> !r,
;

/// `String::push` appends one character.
pub assume_specification[ String::push ](s: &mut String, c: char)
    ensures
        final(s)@ == old(s)@.push(c),
;

/// `str::trim` removes the white space at both ends.
pub assume_specification[ str::trim ](s: &str) -> (r: &str)
    ensures
        r@ == trimmed(s@),
;

/// `str::eq_ignore_ascii_case` compares two texts as if their ASCII capitals were in lower case.
pub assume_specification[ str::eq_ignore_ascii_case ](a: &str, b: &str) -> (r: bool)
    ensures
        r == (ascii_lowered(a@) == ascii_lowered(b@)),
;

/// `str::trim_end_matches`, given one character, removes the run of it at the end.
#[verifier::external_body]
pub(crate) fn trim_end_matches(s: &str, c: char) -> (r: &str)
    ensures
        r@ == without_trailing(s@, c),
{
    s.trim_end_matches(c)
}

/// Borrows a string that may be missing.
pub(crate) fn as_text(s: &Option<String>) -> (out: Option<&str>)
    ensures
        text_of(out) == opt_text(*s),
{
    match s {
        Some(text) => Some(text.as_str()),
        None => None,
    }
}

/// Lengthening the last word lengthens the joined text.
proof fn lemma_joined_grow(ws: Seq<Seq<char>>, c: char)
    requires
        ws.len() > 0,
    ensures
        joined(ws.drop_last().push(ws.last().push(c))) == joined(ws).push(c),
{
    let grown = ws.drop_last().push(ws.last().push(c));
    assert(grown.drop_last() =~= ws.drop_last());
    if ws.len() > 1 {
        assert(joined(grown) =~= joined(ws).push(c));
    }
}

/// A new word comes after a space, unless it is the first.
proof fn lemma_joined_push(ws: Seq<Seq<char>>, w: Seq<char>)
    ensures
        ws.len() == 0 ==> joined(ws.push(w)) == w,
        ws.len() > 0 ==> joined(ws.push(w)) == joined(ws) + seq![' '] + w,
{
    assert(ws.push(w).drop_last() =~= ws);
}

/// Makes every run of white space one space and removes those at the ends.
pub fn collapse_whitespace(s: &str) -> (out: String)
    ensures
        out@ == collapsed(s@),
{
    let mut out = String::new();
    let mut started: bool = false;
    let mut in_word: bool = false;
    proof {
        assert(s@.take(0) =~= Seq::<char>::empty());
    }
    for c in it: s.chars()
        invariant
            it.seq() == s@,
            out@ == joined(words(s@.take(it.index()))),
            started == (words(s@.take(it.index())).len() > 0),
            in_word == (it.index() > 0 && !is_white_space(s@[it.index() - 1])),
            in_word ==> started,
    {
        let ghost i = it.index();
        let ghost before = words(s@.take(i));
        proof {
            assert(s@.take(i + 1).drop_last() =~= s@.take(i));
            assert(s@.take(i + 1).last() == c);
        }
        if c.is_whitespace() {
            in_word = false;
        } else {
            if in_word {
                proof {
                    lemma_joined_grow(before, c);
                }
            } else {
                proof {
                    lemma_joined_push(before, seq![c]);
                }
                if started {
                    out.push(' ');
                }
                assert(seq![c] =~= Seq::<char>::empty().push(c));
            }
            out.push(c);
            started = true;
            in_word = true;
            assert(out@ =~= joined(words(s@.take(i + 1))));
        }
    }
    proof {
        assert(s@.take(s@.len() as int) =~= s@);
    }
    out
}

/// A text that ends in a word has words.
proof fn lemma_words_nonempty(s: Seq<char>)
    requires
        s.len() > 0,
        !is_white_space(s.last()),
    ensures
        words(s).len() > 0,
{
}

/// The words on the two sides of a white space are the words of the whole.
pub proof fn lemma_words_split(a: Seq<char>, c: char, b: Seq<char>)
    requires
        is_white_space(c),
    ensures
        words(a + seq![c] + b) == words(a) + words(b),
    decreases b.len(),
{
    let s = a + seq![c] + b;
    if b.len() == 0 {
        assert(s.drop_last() =~= a);
        assert(words(a) + words(b) =~= words(a));
    } else {
        let before = b.drop_last();
        lemma_words_split(a, c, before);
        assert(s.drop_last() =~= a + seq![c] + before);
        assert(s.last() == b.last());
        if !is_white_space(b.last()) {
            if b.len() > 1 {
                assert(s[s.len() - 2] == b[b.len() - 2]);
                if !is_white_space(b[b.len() - 2]) {
                    lemma_words_nonempty(before);
                    assert((words(a) + words(before)).drop_last() =~= words(a)
                        + words(before).drop_last());
                }
            } else {
                assert(s[s.len() - 2] == c);
            }
            assert(words(s) =~= words(a) + words(b));
        }
    }
}

/// Whether a text is one word.
pub open spec fn is_word(w: Seq<char>) -> bool {
    w.len() > 0 && forall|i: int| 0 <= i < w.len() ==> !is_white_space(#[trigger] w[i])
}

/// A word is its only word.
pub proof fn lemma_words_of_word(w: Seq<char>)
    requires
        is_word(w),
    ensures
        words(w) == seq![w],
    decreases w.len(),
{
    let before = w.drop_last();
    if w.len() == 1 {
        assert(words(before) =~= Seq::empty());
        assert(seq![w.last()] =~= w);
    } else {
        assert forall|i: int| 0 <= i < before.len() implies !is_white_space(
            #[trigger] before[i],
        ) by {
            assert(!is_white_space(w[i]));
        }
        lemma_words_of_word(before);
        assert(!is_white_space(w[w.len() - 2]));
        assert(before.push(w.last()) =~= w);
    }
    assert(words(w) =~= seq![w]);
}

/// The words of a text are words.
pub proof fn lemma_words_are_words(s: Seq<char>)
    ensures
        forall|k: int| 0 <= k < words(s).len() ==> is_word(#[trigger] words(s)[k]),
    decreases s.len(),
{
    if s.len() > 0 {
        lemma_words_are_words(s.drop_last());
        if !is_white_space(s.last()) && s.len() > 1 && !is_white_space(s[s.len() - 2]) {
            let before = words(s.drop_last());
            lemma_words_nonempty(s.drop_last());
            assert(is_word(before[before.len() - 1]));
        }
    }
}

/// Joined words are taken apart again.
pub proof fn lemma_words_of_joined(ws: Seq<Seq<char>>)
    requires
        forall|k: int| 0 <= k < ws.len() ==> is_word(#[trigger] ws[k]),
    ensures
        words(joined(ws)) == ws,
    decreases ws.len(),
{
    if ws.len() == 1 {
        lemma_words_of_word(ws[0]);
        assert(seq![ws[0]] =~= ws);
    } else if ws.len() > 1 {
        lemma_words_of_joined(ws.drop_last());
        lemma_words_of_word(ws[ws.len() - 1]);
        lemma_words_split(joined(ws.drop_last()), ' ', ws.last());
        assert(ws.drop_last() + seq![ws.last()] =~= ws);
    } else {
        assert(words(joined(ws)) =~= ws);
    }
}

/// Making every run of white space one space keeps the words, and doing it twice changes nothing.
pub proof fn law_collapsed(s: Seq<char>)
    ensures
        words(collapsed(s)) == words(s),
        collapsed(collapsed(s)) == collapsed(s),
{
    lemma_words_are_words(s);
    lemma_words_of_joined(words(s));
}

/// How the collapsed text grows with the text.
pub proof fn lemma_collapsed_grow(s: Seq<char>, c: char)
    ensures
        is_white_space(c) ==> collapsed(s.push(c)) == collapsed(s),
        !is_white_space(c) ==> collapsed(s.push(c)) == collapsed(s).push(c) || collapsed(s.push(c))
            == collapsed(s) + seq![' '] + seq![c],
{
    let grown = s.push(c);
    assert(grown.drop_last() =~= s);
    if !is_white_space(c) {
        if s.len() > 0 && !is_white_space(s.last()) {
            assert(grown[grown.len() - 2] == s.last());
            lemma_words_nonempty(s);
            lemma_joined_grow(words(s), c);
        } else {
            if s.len() > 0 {
                assert(grown[grown.len() - 2] == s.last());
            }
            lemma_joined_push(words(s), seq![c]);
            if words(s).len() == 0 {
                assert(collapsed(s).push(c) =~= seq![c]);
            }
        }
    }
}

/// Collapsing leaves nothing of a text if and only if it is all white space.
pub proof fn lemma_collapsed_empty(s: Seq<char>)
    ensures
        collapsed(s).len() == 0 <==> forall|i: int| 0 <= i < s.len() ==> is_white_space(
            #[trigger] s[i],
        ),
    decreases s.len(),
{
    if s.len() > 0 {
        let before = s.drop_last();
        let c = s.last();
        lemma_collapsed_empty(before);
        lemma_collapsed_grow(before, c);
        assert(before.push(c) =~= s);
        if is_white_space(c) {
            if collapsed(s).len() == 0 {
                assert forall|i: int| 0 <= i < s.len() implies is_white_space(#[trigger] s[i]) by {
                    if i < before.len() {
                        assert(is_white_space(before[i]));
                    }
                }
            }
            if forall|i: int| 0 <= i < s.len() ==> is_white_space(#[trigger] s[i]) {
                assert forall|i: int| 0 <= i < before.len() implies is_white_space(
                    #[trigger] before[i],
                ) by {
                    assert(is_white_space(s[i]));
                }
            }
        } else {
            assert(!is_white_space(s[s.len() - 1]));
        }
    }
}

/// A collapsed text has no characters but those of the text and spaces.
pub proof fn lemma_collapsed_characters(s: Seq<char>)
    ensures
        forall|i: int|
            0 <= i < collapsed(s).len() ==> #[trigger] collapsed(s)[i] == ' ' || s.contains(
                collapsed(s)[i],
            ),
    decreases s.len(),
{
    if s.len() > 0 {
        let before = s.drop_last();
        lemma_collapsed_characters(before);
        lemma_collapsed_grow(before, s.last());
        assert(before.push(s.last()) =~= s);
        assert forall|i: int| 0 <= i < collapsed(s).len() implies #[trigger] collapsed(s)[i] == ' '
            || s.contains(collapsed(s)[i]) by {
            let c = collapsed(s)[i];
            if i < collapsed(before).len() {
                assert(c == collapsed(before)[i]);
                if before.contains(c) {
                    let k = choose|k: int| 0 <= k < before.len() && before[k] == c;
                    assert(s[k] == c);
                }
            } else if c != ' ' {
                assert(s[s.len() - 1] == c);
            }
        }
    }
}

/// How a text is taken apart into words: a text without white space is its own only word, and white
/// space parts the words on its two sides. Nothing has no words.
pub proof fn law_words(a: Seq<char>, c: char, b: Seq<char>, w: Seq<char>)
    ensures
        words(Seq::<char>::empty()) == Seq::<Seq<char>>::empty(),
        w.len() > 0 && (forall|i: int| 0 <= i < w.len() ==> !is_white_space(#[trigger] w[i]))
            ==> words(w) == seq![w],
        is_white_space(c) ==> words(a + seq![c] + b) == words(a) + words(b),
{
    if is_word(w) {
        lemma_words_of_word(w);
    }
    if is_white_space(c) {
        lemma_words_split(a, c, b);
    }
}

/// Two lists of words are joined with one space between them.
proof fn lemma_joined_add(u: Seq<Seq<char>>, v: Seq<Seq<char>>)
    requires
        u.len() > 0,
        v.len() > 0,
    ensures
        joined(u + v) == joined(u) + seq![' '] + joined(v),
    decreases v.len(),
{
    assert((u + v).drop_last() =~= u + v.drop_last());
    assert((u + v).last() == v.last());
    if v.len() == 1 {
        assert(u + v.drop_last() =~= u);
    } else {
        lemma_joined_add(u, v.drop_last());
        assert(joined(u + v) =~= joined(u) + seq![' '] + joined(v));
    }
}

/// How a text is collapsed: a text without white space stays as it is, and two texts with white
/// space between them are put one space apart, unless one of them is blank.
pub proof fn law_collapsed_parts(a: Seq<char>, c: char, b: Seq<char>, w: Seq<char>)
    ensures
        collapsed(Seq::<char>::empty()) == Seq::<char>::empty(),
        (forall|i: int| 0 <= i < w.len() ==> !is_white_space(#[trigger] w[i])) ==> collapsed(w) == w,
        is_white_space(c) ==> collapsed(a + seq![c] + b) == (if collapsed(a).len() == 0 {
            collapsed(b)
        } else if collapsed(b).len() == 0 {
            collapsed(a)
        } else {
            collapsed(a) + seq![' '] + collapsed(b)
        }),
{
    law_words(a, c, b, w);
    if is_word(w) {
        assert(joined(seq![w]) == w);
    } else if w.len() == 0 {
        assert(w =~= Seq::<char>::empty());
    }
    lemma_no_words(a);
    lemma_no_words(b);
    if is_white_space(c) {
        if words(a).len() == 0 {
            assert(words(a) + words(b) =~= words(b));
        } else if words(b).len() == 0 {
            assert(words(a) + words(b) =~= words(a));
        } else {
            lemma_joined_add(words(a), words(b));
        }
    }
}

/// A text collapses to nothing if and only if it has no words.
pub proof fn lemma_no_words(s: Seq<char>)
    ensures
        collapsed(s).len() == 0 <==> words(s).len() == 0,
{
    lemma_words_are_words(s);
    let ws = words(s);
    if ws.len() > 0 {
        assert(is_word(ws[ws.len() - 1]));
        assert(joined(ws).len() > 0);
    }
}

/// The place of what trimming leaves of a text.
proof fn lemma_trimmed_place(s: Seq<char>) -> (place: (int, int))
    ensures
        0 <= place.0 <= place.1 <= s.len(),
        s.subrange(place.0, place.1) == trimmed(s),
        forall|k: int| 0 <= k < place.0 ==> is_white_space(#[trigger] s[k]),
        forall|k: int| place.1 <= k < s.len() ==> is_white_space(#[trigger] s[k]),
        place.0 < place.1 ==> !is_white_space(s[place.0]) && !is_white_space(s[place.1 - 1]),
    decreases s.len(),
{
    if s.len() == 0 {
        assert(s.subrange(0, 0) =~= s);
        (0, 0)
    } else if is_white_space(s.first()) {
        let t = s.drop_first();
        let (i, j) = lemma_trimmed_place(t);
        assert(s.subrange(i + 1, j + 1) =~= t.subrange(i, j));
        assert forall|k: int| 0 <= k < i + 1 implies is_white_space(#[trigger] s[k]) by {
            if k > 0 {
                assert(s[k] == t[k - 1]);
            }
        }
        assert forall|k: int| j + 1 <= k < s.len() implies is_white_space(#[trigger] s[k]) by {
            assert(s[k] == t[k - 1]);
        }
        (i + 1, j + 1)
    } else if is_white_space(s.last()) {
        let t = s.drop_last();
        let (i, j) = lemma_trimmed_place(t);
        assert(s.subrange(i, j) =~= t.subrange(i, j));
        assert forall|k: int| 0 <= k < i implies is_white_space(#[trigger] s[k]) by {
            assert(s[k] == t[k]);
        }
        assert forall|k: int| j <= k < s.len() implies is_white_space(#[trigger] s[k]) by {
            if k < t.len() {
                assert(s[k] == t[k]);
            }
        }
        (i, j)
    } else {
        assert(s.subrange(0, s.len() as int) =~= s);
        (0, s.len() as int)
    }
}

/// White space at the ends of a text is trimmed, and nothing else: what neither begins nor ends with
/// white space is left as it is.
pub proof fn law_trimmed(left: Seq<char>, s: Seq<char>, right: Seq<char>)
    requires
        forall|k: int| 0 <= k < left.len() ==> is_white_space(#[trigger] left[k]),
        forall|k: int| 0 <= k < right.len() ==> is_white_space(#[trigger] right[k]),
        s.len() > 0 ==> !is_white_space(s.first()) && !is_white_space(s.last()),
    ensures
        trimmed(left + s + right) == s,
{
    let whole = left + s + right;
    let (i, j) = lemma_trimmed_place(whole);
    let m = left.len() as int;
    let n = (left.len() + s.len()) as int;
    assert(forall|k: int| 0 <= k < m ==> whole[k] == left[k]);
    assert(forall|k: int| m <= k < n ==> whole[k] == s[k - m]);
    assert(forall|k: int| n <= k < whole.len() ==> whole[k] == right[k - n]);
    if s.len() == 0 {
        assert(forall|k: int| 0 <= k < whole.len() ==> is_white_space(#[trigger] whole[k]));
        assert(i == j);
        assert(whole.subrange(i, j) =~= s);
    } else {
        assert(whole[m] == s.first());
        assert(whole[n - 1] == s.last());
        assert(i == m && j == n);
        assert(whole.subrange(i, j) =~= s);
    }
}

/// A text is what is left of it with the character repeated behind it, and what is left does not end
/// with the character.
pub proof fn law_without_trailing(s: Seq<char>, c: char)
    ensures
        without_trailing(s, c).len() <= s.len(),
        without_trailing(s, c) == s.take(without_trailing(s, c).len() as int),
        forall|k: int| without_trailing(s, c).len() <= k < s.len() ==> #[trigger] s[k] == c,
        without_trailing(s, c).len() > 0 ==> without_trailing(s, c).last() != c,
    decreases s.len(),
{
    if s.len() > 0 && s.last() == c {
        let t = s.drop_last();
        law_without_trailing(t, c);
        let n = without_trailing(t, c).len() as int;
        assert(t.take(n) =~= s.take(n));
        assert forall|k: int| n <= k < s.len() implies #[trigger] s[k] == c by {
            if k < t.len() {
                assert(t[k] == c);
            }
        }
    } else {
        assert(s.take(s.len() as int) =~= s);
    }
}

/// Two texts are the same up to the case of ASCII letters if and only if they are equally long and
/// hold, place by place, the same character or the two cases of an ASCII letter.
pub proof fn law_ascii_lowered(a: Seq<char>, b: Seq<char>)
    ensures
        ascii_lowered(a) == ascii_lowered(b) <==> a.len() == b.len() && forall|i: int|
            0 <= i < a.len() ==> {
                ||| #[trigger] a[i] == b[i]
                ||| 'A' <= a[i] <= 'Z' && b[i] as u32 == a[i] as u32 + 32
                ||| 'A' <= b[i] <= 'Z' && a[i] as u32 == b[i] as u32 + 32
            },
{
    let x = ascii_lowered(a);
    let y = ascii_lowered(b);
    if x == y {
        assert(x.len() == y.len());
        assert forall|i: int| 0 <= i < a.len() implies {
            ||| #[trigger] a[i] == b[i]
            ||| 'A' <= a[i] <= 'Z' && b[i] as u32 == a[i] as u32 + 32
            ||| 'A' <= b[i] <= 'Z' && a[i] as u32 == b[i] as u32 + 32
        } by {
            assert(x[i] == y[i]);
        }
    }
    if a.len() == b.len() && forall|i: int|
        0 <= i < a.len() ==> {
            ||| #[trigger] a[i] == b[i]
            ||| 'A' <= a[i] <= 'Z' && b[i] as u32 == a[i] as u32 + 32
            ||| 'A' <= b[i] <= 'Z' && a[i] as u32 == b[i] as u32 + 32
        } {
        assert forall|i: int| 0 <= i < a.len() implies x[i] == y[i] by {
            assert(a[i] == a[i]);
        }
        assert(x =~= y);
    }
}

/// The characters of names: in ASCII the letters and digits, and white space nowhere.
pub proof fn law_name_characters(c: char)
    ensures
        c <= '\u{7f}' ==> (is_name_character(c) <==> ('0' <= c <= '9' || 'A' <= c <= 'Z' || 'a' <= c
            <= 'z')),
        c > '\u{7f}' && !is_white_space(c) ==> is_name_character(c) == unicode_alphanumeric(c),
        is_white_space(c) ==> !is_name_character(c),
{
}

/// The views of strings are their texts, and what is missing stays missing.
pub proof fn law_text_views(list: Seq<String>, s: String, t: &str)
    ensures
        texts(list).len() == list.len(),
        forall|i: int| 0 <= i < list.len() ==> #[trigger] texts(list)[i] == list[i]@,
        opt_text(Some(s)) == Some(s@),
        opt_text(None) is None,
        text_of(Some(t)) == Some(t@),
        text_of(None) is None,
{
}

} // verus!
