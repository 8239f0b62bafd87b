//! How titles and artists are varied for a search and compared with what it found.

use crate::patterns::{is_match, occurs, replace_all, replaced, PARENTHESES, SEPARATORS};
use crate::text::{
    collapse_whitespace, collapsed, is_name_character, is_white_space, joined, law_collapsed,
    lemma_collapsed_characters, lemma_collapsed_empty, opt_text, texts, words,
};
use crate::tools::{computes, may_return, total};
use vstd::prelude::*;

verus! {

/// A text with a space in place of each character that is neither letter nor digit.
pub open spec fn spaced(s: Seq<char>) -> Seq<char> {
    s.map_values(|c: char| if is_name_character(c) { c } else { ' ' })
}

/// A text with a space in place of each character that is neither letter nor digit, and its words
/// one space apart.
pub open spec fn normalized(s: Seq<char>) -> Seq<char> {
    collapsed(spaced(s))
}

/// A text with the word `and` in place of each separator of artists.
pub open spec fn separators_unified(s: Seq<char>) -> Seq<char> {
    replaced(SEPARATORS@, s, " and "@)
}

/// The ways in which a separator of artists is written.
pub open spec fn separator_forms() -> Seq<Seq<char>> {
    seq!["and"@, "&"@, "plus"@, "+"@]
}

/// An artist's name with each separator written as `form`.
pub open spec fn variant(artist: Seq<char>, form: Seq<char>) -> Seq<char> {
    collapsed(replaced(SEPARATORS@, artist, seq![' '] + form + seq![' ']))
}

/// An artist's name with its separators written in each of the ways.
pub open spec fn spellings(artist: Seq<char>) -> Seq<Seq<char>> {
    separator_forms().map_values(|form: Seq<char>| variant(artist, form))
}

/// Tells the names that are not the given one.
pub open spec fn other_than(name: Seq<char>) -> spec_fn(Seq<char>) -> bool {
    |other: Seq<char>| other != name
}

/// The other ways in which an artist's name may be written.
pub open spec fn variants(artist: Seq<char>) -> Seq<Seq<char>> {
    if occurs(SEPARATORS@, artist) {
        spellings(artist).filter(other_than(artist))
    } else {
        Seq::empty()
    }
}

/// A title without its parts in parentheses, where that leaves another title.
pub open spec fn without_parentheses(title: Seq<char>) -> Option<Seq<char>> {
    let stripped = collapsed(replaced(PARENTHESES@, title, seq![' ']));
    if occurs(PARENTHESES@, title) && stripped.len() > 0 && stripped != title {
        Some(stripped)
    } else {
        None
    }
}

/// Brings a name into the form in which two names are compared.
pub fn normalize_name<P: Fn(&str) -> String>(name: &str, prepare_input: &P) -> (out: String)
    requires
        total(*prepare_input),
    ensures
        forall|prepared: spec_fn(Seq<char>) -> Seq<char>| #[trigger]
            computes(*prepare_input, prepared) ==> out@ == normalized(prepared(name@)),
        exists|prepared: Seq<char>| #[trigger]
            may_return(*prepare_input, name@, prepared) && out@ == normalized(prepared),
{
    let prepared = prepare_input(name);
    let ghost source = prepared@;
    assert(may_return(*prepare_input, name@, source));
    let mut out = String::new();
    for c in it: prepared.chars()
        invariant
            it.seq() == source,
            out@ == spaced(source.take(it.index())),
    {
        let ghost i = it.index();
        if c.is_alphanumeric() {
            out.push(c);
        } else {
            out.push(' ');
        }
        assert(out@ =~= spaced(source.take(i + 1)));
    }
    assert(source.take(source.len() as int) =~= source);
    collapse_whitespace(out.as_str())
}

/// Brings an artist's name into the form in which two artists are compared: however its separators
/// are written, they count as the same.
pub fn normalize_artist<P: Fn(&str) -> String>(name: &str, prepare_input: &P) -> (out: String)
    requires
        total(*prepare_input),
    ensures
        forall|prepared: spec_fn(Seq<char>) -> Seq<char>| #[trigger]
            computes(*prepare_input, prepared) ==> out@ == normalized(
                prepared(separators_unified(name@)),
            ),
        exists|prepared: Seq<char>| #[trigger]
            may_return(*prepare_input, separators_unified(name@), prepared) && out@ == normalized(
                prepared,
            ),
{
    proof {
        reveal_strlit(" and ");
    }
    let unified = replace_all(SEPARATORS, name, " and ");
    let text = unified.as_str();
    assert(text@ == separators_unified(name@));
    normalize_name(text, prepare_input)
}

/// The name with each separator written as `form`.
fn write_variant(artist_name: &str, form: &str) -> (out: String)
    requires
        !form@.contains('$'),
    ensures
        out@ == variant(artist_name@, form@),
{
    let mut padded = String::new();
    padded.push(' ');
    padded.append(form);
    padded.push(' ');
    assert(padded@ =~= seq![' '] + form@ + seq![' ']);
    assert(!padded@.contains('$')) by {
        assert forall|i: int| 0 <= i < padded@.len() implies padded@[i] != '$' by {
            if 0 < i < padded@.len() - 1 {
                assert(form@.contains(form@[i - 1]));
            }
        }
    }
    let varied = replace_all(SEPARATORS, artist_name, padded.as_str());
    collapse_whitespace(varied.as_str())
}

/// The other ways in which an artist's name may be written; none if it has no separator.
pub fn artist_variants(artist_name: &str) -> (out: Vec<String>)
    ensures
        texts(out@) == variants(artist_name@),
{
    let mut out: Vec<String> = Vec::new();
    if !is_match(SEPARATORS, artist_name) {
        assert(texts(out@) =~= Seq::empty());
        return out;
    }
    proof {
        reveal_strlit("and");
        reveal_strlit("&");
        reveal_strlit("plus");
        reveal_strlit("+");
    }
    let own = artist_name.to_owned();
    let forms: [&str; 4] = ["and", "&", "plus", "+"];
    let ghost all = spellings(artist_name@);
    let ghost other = other_than(artist_name@);
    assert(all.take(0).filter(other) =~= Seq::empty()) by {
        reveal(Seq::filter);
    }
    let mut i: usize = 0;
    while i < 4
        invariant
            i <= 4,
            own@ == artist_name@,
            forms@.len() == 4,
            all.len() == 4,
            forall|k: int| 0 <= k < 4 ==> #[trigger] all[k] == variant(artist_name@, forms@[k]@),
            forall|k: int| 0 <= k < 4 ==> !(#[trigger] forms@[k])@.contains('$'),
            other == other_than(artist_name@),
            texts(out@) == all.take(i as int).filter(other),
        decreases 4 - i,
    {
        let ghost before = out@;
        let written = write_variant(artist_name, forms[i]);
        proof {
            reveal(Seq::filter);
            assert(all.take(i + 1).drop_last() =~= all.take(i as int));
            assert(all.take(i + 1).last() == written@);
        }
        if !(written == own) {
            out.push(written);
            assert(texts(out@) =~= texts(before).push(written@));
        }
        i += 1;
    }
    assert(all.take(4) =~= all);
    out
}

/// The title without its parts in parentheses, if it has any and something else is left.
pub fn title_without_parentheses(title: &str) -> (out: Option<String>)
    ensures
        opt_text(out) == without_parentheses(title@),
{
    if !is_match(PARENTHESES, title) {
        return None;
    }
    proof {
        reveal_strlit(" ");
        assert(" "@ =~= seq![' ']);
    }
    let blanked = replace_all(PARENTHESES, title, " ");
    let stripped = collapse_whitespace(blanked.as_str());
    let own = title.to_owned();
    if !stripped.as_str().is_empty() && !(stripped == own) {
        Some(stripped)
    } else {
        None
    }
}

/// A normalized name is made of letters and digits in words that are one space apart, and to
/// normalize it again changes nothing. It is empty only if there was no letter or digit.
pub proof fn law_normalized(s: Seq<char>)
    ensures
        forall|i: int|
            0 <= i < normalized(s).len() ==> #[trigger] normalized(s)[i] == ' '
                || is_name_character(normalized(s)[i]),
        normalized(s) == joined(words(normalized(s))),
        normalized(normalized(s)) == normalized(s),
        normalized(s).len() == 0 <==> forall|i: int|
            0 <= i < s.len() ==> !is_name_character(#[trigger] s[i]),
{
    let blanked = spaced(s);
    let name = normalized(s);
    law_collapsed(blanked);
    lemma_collapsed_characters(blanked);
    assert forall|i: int| 0 <= i < name.len() implies #[trigger] name[i] == ' '
        || is_name_character(name[i]) by {
        if name[i] != ' ' {
            let k = choose|k: int| 0 <= k < blanked.len() && blanked[k] == name[i];
            assert(is_name_character(s[k]));
        }
    }
    assert(spaced(name) =~= name);
    lemma_collapsed_empty(blanked);
    assert forall|i: int| 0 <= i < s.len() implies is_white_space(#[trigger] blanked[i])
        == !is_name_character(s[i]) by {}
    if name.len() == 0 {
        assert forall|i: int| 0 <= i < s.len() implies !is_name_character(#[trigger] s[i]) by {
            assert(is_white_space(blanked[i]));
        }
    }
}

} // verus!
