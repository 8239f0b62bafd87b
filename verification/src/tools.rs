//! The text functions that the application lends to the lookup.

use vstd::prelude::*;

verus! {

/// What a lyricsfile was found to hold.
#[derive(Clone, Copy, Debug, PartialEq, Eq)]
pub struct LyricsPresence {
    pub has_synced_lyrics: bool,
}

/// The functions of the application that names and lyrics are read with.
///
/// `prepare_input` brings a name into the form in which names are compared. `lyrics_presence` tells
/// what a lyricsfile holds, and nothing if it cannot be read.
pub struct TextTools<P, L> {
    pub prepare_input: P,
    pub lyrics_presence: L,
}

/// What the functions of `TextTools` compute, as functions on texts.
pub struct TextModel {
    pub prepared: spec_fn(Seq<char>) -> Seq<char>,
    pub presence: spec_fn(Seq<char>) -> Option<LyricsPresence>,
}

/// `f` can be called on every text.
pub open spec fn total<R, F: Fn(&str) -> R>(f: F) -> bool {
    forall|s: &str| #[trigger] call_requires(f, (s,))
}

/// `out` is a text that `f` may return on `text`.
pub open spec fn may_return<F: Fn(&str) -> String>(f: F, text: Seq<char>, out: Seq<char>) -> bool {
    exists|s: &str, r: String| #[trigger] call_ensures(f, (s,), r) && s@ == text && r@ == out
}

/// `f` returns, on each text, the text that `g` gives.
pub open spec fn computes<F: Fn(&str) -> String>(f: F, g: spec_fn(Seq<char>) -> Seq<char>) -> bool {
    forall|s: &str, r: String| #[trigger] call_ensures(f, (s,), r) ==> r@ == g(s@)
}

/// `f` finds, in each text, what `g` gives.
pub open spec fn detects<F: Fn(&str) -> Option<LyricsPresence>>(
    f: F,
    g: spec_fn(Seq<char>) -> Option<LyricsPresence>,
) -> bool {
    forall|s: &str, r: Option<LyricsPresence>| #[trigger]
        call_ensures(f, (s,), r) ==> r == g(s@)
}

impl<P: Fn(&str) -> String, L: Fn(&str) -> Option<LyricsPresence>> TextTools<P, L> {
    /// Both functions can be called on every text.
    pub open spec fn usable(self) -> bool {
        total(self.prepare_input) && total(self.lyrics_presence)
    }

    /// Both functions compute what `model` says.
    pub open spec fn follows(self, model: TextModel) -> bool {
        computes(self.prepare_input, model.prepared) && detects(
            self.lyrics_presence,
            model.presence,
        )
    }
}

/// The application's functions can be used if each of them takes every text, and they follow a model
/// if each of them returns nothing but what the model says. Nothing more is asked of them.
pub proof fn law_tools<P: Fn(&str) -> String, L: Fn(&str) -> Option<LyricsPresence>>(
    tools: TextTools<P, L>,
    model: TextModel,
)
    ensures
        (forall|s: &str| #[trigger] call_requires(tools.prepare_input, (s,))) && (forall|s: &str|
            #[trigger]
            call_requires(tools.lyrics_presence, (s,))) ==> tools.usable(),
        (forall|s: &str, r: String| #[trigger]
            call_ensures(tools.prepare_input, (s,), r) ==> r@ == (model.prepared)(s@)) && (forall|
            s: &str,
            r: Option<LyricsPresence>,
        | #[trigger]
            call_ensures(tools.lyrics_presence, (s,), r) ==> r == (model.presence)(s@))
            ==> tools.follows(model),
{
}

/// A function on texts computes another if it returns nothing but what that gives, and what it may
/// return is then what that gives.
pub proof fn law_computes<F: Fn(&str) -> String>(
    f: F,
    g: spec_fn(Seq<char>) -> Seq<char>,
    text: Seq<char>,
    out: Seq<char>,
)
    ensures
        (forall|s: &str, r: String| #[trigger] call_ensures(f, (s,), r) ==> r@ == g(s@)) ==> computes(
            f,
            g,
        ),
        (forall|s: &str| #[trigger] call_requires(f, (s,))) ==> total(f),
        may_return(f, text, out) && computes(f, g) ==> out == g(text),
        may_return(f, text, out) ==> exists|s: &str, r: String| #[trigger]
            call_ensures(f, (s,), r) && s@ == text && r@ == out,
{
}

/// A function on lyricsfiles detects what another gives if it returns nothing else.
pub proof fn law_detects<F: Fn(&str) -> Option<LyricsPresence>>(
    f: F,
    g: spec_fn(Seq<char>) -> Option<LyricsPresence>,
)
    ensures
        (forall|s: &str, r: Option<LyricsPresence>| #[trigger]
            call_ensures(f, (s,), r) ==> r == g(s@)) ==> detects(f, g),
        (forall|s: &str| #[trigger] call_requires(f, (s,))) ==> total(f),
{
}

} // verus!
