//! The course of a lookup: which searches follow the request for the exact track, and what they
//! come to.

use crate::duration::{duration_tier, tier, Seconds};
use crate::error::{
    is_not_found, no_lyrics_error, result_view, says_not_found, RequestError, RequestErrorView,
    ResponseError,
};
use crate::fallback::{
    artist_key, choose_response, chosen, has_synced_lyrics, is_best, is_fallback, item_synced,
    offered, present, ranking, response_synced, same_artist, select_fallback, title_key, Wanted,
};
use crate::get::RawResponse;
use crate::names::{
    artist_variants, normalize_artist, normalize_name, title_without_parentheses, variants,
    without_parentheses,
};
use crate::search::SearchItem;
use crate::text::{as_text, ascii_lowered, opt_text, texts, trimmed};
use crate::tools::{LyricsPresence, TextModel, TextTools};
use vstd::prelude::*;

verus! {

/// A list in which of equal neighbours only the first is kept.
pub open spec fn without_repeats(list: Seq<Seq<char>>) -> Seq<Seq<char>>
    decreases list.len(),
{
    if list.len() == 0 {
        list
    } else {
        let kept = without_repeats(list.drop_last());
        if kept.len() > 0 && kept.last() == list.last() {
            kept
        } else {
            kept.push(list.last())
        }
    }
}

/// The names under which an artist is searched for.
pub open spec fn searched_artists(artist: Seq<char>) -> Seq<Seq<char>> {
    without_repeats(seq![artist] + variants(artist))
}

/// Whether an error says that the server refused the request as malformed.
pub open spec fn says_refused<E>(e: RequestErrorView<E>) -> bool {
    e matches RequestErrorView::Api { status, .. } && status == 400
}

/// Whether a track is the wanted one in title, artist and duration and has synced lyrics.
pub open spec fn is_exact_synced(item: SearchItem, wanted: Wanted, model: TextModel) -> bool {
    &&& tier(item.duration, wanted.duration) == 0
    &&& item_synced(item, model)
    &&& opt_text(item.name) matches Some(name) && title_key(name, model) == title_key(
        wanted.title,
        model,
    )
    &&& same_artist(opt_text(item.artist_name), wanted.artist_name, model)
}

/// Whether one of the tracks is the wanted one and has synced lyrics.
pub open spec fn has_exact_synced(items: Seq<SearchItem>, wanted: Wanted, model: TextModel) -> bool {
    exists|i: int| 0 <= i < items.len() && is_exact_synced(#[trigger] items[i], wanted, model)
}

/// What the best of the tracks gives; nothing if none can be offered.
pub open spec fn fallback_of(items: Seq<SearchItem>, wanted: Wanted, model: TextModel) -> Option<
    RawResponse,
> {
    choose|out: Option<RawResponse>| is_fallback(items, wanted, model, out)
}

/// Which search a lookup waits for.
pub enum StageView {
    /// The title, with the artist at this place.
    Whole(int),
    /// The title without its parts in parentheses, with the artist at this place.
    Stripped(Seq<char>, int),
    /// The title in normalized form.
    Normalized,
}

/// `Lookup` with texts for its strings.
pub struct LookupView<E> {
    pub wanted: Wanted,
    pub artists: Seq<Seq<char>>,
    pub stage: StageView,
    pub exact: Option<RawResponse>,
    pub candidates: Seq<SearchItem>,
    pub error: Option<RequestErrorView<E>>,
}

/// `Step` with texts for its strings.
pub enum StepView<E> {
    Search { title: Seq<char>, artist_name: Seq<char>, next: LookupView<E> },
    Done(Result<RawResponse, RequestErrorView<E>>),
}

/// The end of a lookup without a fallback: the exact answer, or else the error that came last, or
/// else that there are no lyrics.
pub open spec fn ended<E>(state: LookupView<E>) -> StepView<E> {
    StepView::Done(
        match state.exact {
            Some(response) => Ok(response),
            None => match state.error {
                Some(e) => Err(e),
                None => Err(no_lyrics_error()),
            },
        },
    )
}

/// The end of a lookup: the better of the exact answer and the fallback, or else the error that
/// came last, or else that there are no lyrics.
pub open spec fn finished<E>(
    state: LookupView<E>,
    fallback: Option<RawResponse>,
    model: TextModel,
) -> StepView<E> {
    StepView::Done(
        match chosen(state.exact, fallback, state.wanted.duration, model) {
            Some(response) => Ok(response),
            None => match state.error {
                Some(e) => Err(e),
                None => Err(no_lyrics_error()),
            },
        },
    )
}

/// Whether a search for the normalized title is worth while: it has letters or digits, and is
/// not the title itself.
pub open spec fn worth_normalizing(title: Seq<char>, model: TextModel) -> bool {
    let key = title_key(title, model);
    key.len() > 0 && ascii_lowered(trimmed(title)) != ascii_lowered(key)
}

/// What follows the searches by title and artists.
pub open spec fn concluded<E>(state: LookupView<E>, model: TextModel) -> StepView<E> {
    let fallback = fallback_of(state.candidates, state.wanted, model);
    if fallback is None && worth_normalizing(state.wanted.title, model) {
        StepView::Search {
            title: title_key(state.wanted.title, model),
            artist_name: state.wanted.artist_name,
            next: LookupView {
                stage: StageView::Normalized,
                candidates: Seq::empty(),
                ..state
            },
        }
    } else {
        finished(state, fallback, model)
    }
}

/// What a lookup knows after an answer: more tracks, or an error in place of an earlier one.
pub open spec fn informed<E>(
    state: LookupView<E>,
    reply: Result<Seq<SearchItem>, RequestErrorView<E>>,
) -> LookupView<E> {
    match reply {
        Ok(items) => LookupView { candidates: state.candidates + items, ..state },
        Err(e) => LookupView { error: Some(e), ..state },
    }
}

/// What follows the searches by the whole title: the same without the title's parts in
/// parentheses, unless the wanted track was found with synced lyrics.
pub open spec fn searched_whole<E>(known: LookupView<E>, model: TextModel) -> StepView<E> {
    match without_parentheses(known.wanted.title) {
        Some(stripped) => if has_exact_synced(known.candidates, known.wanted, model) {
            concluded(known, model)
        } else {
            StepView::Search {
                title: stripped,
                artist_name: known.artists[0],
                next: LookupView { stage: StageView::Stripped(stripped, 0), ..known },
            }
        },
        None => concluded(known, model),
    }
}

/// The search by the next artist, where one is left.
pub open spec fn next_artist<E>(
    state: LookupView<E>,
    reply: Result<Seq<SearchItem>, RequestErrorView<E>>,
) -> Option<StepView<E>> {
    let known = informed(state, reply);
    match state.stage {
        StageView::Whole(i) => if i + 1 < state.artists.len() {
            Some(
                StepView::Search {
                    title: state.wanted.title,
                    artist_name: state.artists[i + 1],
                    next: LookupView { stage: StageView::Whole(i + 1), ..known },
                },
            )
        } else {
            None
        },
        StageView::Stripped(stripped, i) => if i + 1 < state.artists.len() {
            Some(
                StepView::Search {
                    title: stripped,
                    artist_name: state.artists[i + 1],
                    next: LookupView { stage: StageView::Stripped(stripped, i + 1), ..known },
                },
            )
        } else {
            None
        },
        StageView::Normalized => None,
    }
}

/// What follows the answer to a search.
pub open spec fn resumed<E>(
    state: LookupView<E>,
    reply: Result<Seq<SearchItem>, RequestErrorView<E>>,
    model: TextModel,
) -> StepView<E> {
    let known = informed(state, reply);
    match next_artist(state, reply) {
        Some(step) => step,
        None => match state.stage {
            StageView::Whole(_) => searched_whole(known, model),
            StageView::Stripped(_, _) => concluded(known, model),
            StageView::Normalized => match reply {
                Ok(items) => finished(state, fallback_of(items, state.wanted, model), model),
                Err(_) => finished(known, None, model),
            },
        },
    }
}

/// The first search of a lookup.
pub open spec fn searching<E>(
    wanted: Wanted,
    exact: Option<RawResponse>,
    error: Option<RequestErrorView<E>>,
) -> StepView<E> {
    StepView::Search {
        title: wanted.title,
        artist_name: searched_artists(wanted.artist_name)[0],
        next: LookupView {
            wanted,
            artists: searched_artists(wanted.artist_name),
            stage: StageView::Whole(0),
            exact,
            candidates: Seq::empty(),
            error,
        },
    }
}

/// What follows an error in place of the exact track: the end of the lookup, unless the error says
/// that nothing was found or that the request was refused.
pub open spec fn begun_after_error<E>(wanted: Wanted, e: RequestErrorView<E>) -> StepView<E> {
    if says_not_found(e) {
        searching(wanted, None, None)
    } else if says_refused(e) {
        searching(wanted, None, Some(e))
    } else {
        StepView::Done(Err(e))
    }
}

/// What follows the answer to the request for the exact track. Synced lyrics, or that the track is
/// instrumental, end the lookup.
pub open spec fn begun<E>(
    wanted: Wanted,
    exact: Result<RawResponse, RequestErrorView<E>>,
    model: TextModel,
) -> StepView<E> {
    match exact {
        Ok(response) => if response_synced(response, model) || response.instrumental {
            StepView::Done(exact)
        } else {
            searching(wanted, Some(response), None)
        },
        Err(e) => begun_after_error(wanted, e),
    }
}

/// The answer to a search as texts.
pub open spec fn reply_view<E>(r: Result<Vec<SearchItem>, RequestError<E>>) -> Result<
    Seq<SearchItem>,
    RequestErrorView<E>,
> {
    match r {
        Ok(items) => Ok(items@),
        Err(e) => Err(e@),
    }
}

/// Which search a lookup waits for.
#[derive(Debug)]
enum Stage {
    Whole(usize),
    Stripped(String, usize),
    Normalized,
}

/// How far a lookup has come.
#[derive(Debug)]
struct Progress<E> {
    title: String,
    album_name: String,
    artist_name: String,
    duration: Seconds,
    artists: Vec<String>,
    stage: Stage,
    exact: Option<RawResponse>,
    candidates: Vec<SearchItem>,
    search_error: Option<RequestError<E>>,
}

/// A lookup that waits for the answer to a search.
#[derive(Debug)]
pub struct Lookup<E> {
    progress: Progress<E>,
}

/// What a lookup does next: it searches for a title by an artist and goes on with the answer, or
/// it is done.
#[derive(Debug)]
pub enum Step<E> {
    Search { title: String, artist_name: String, next: Lookup<E> },
    Done(Result<RawResponse, RequestError<E>>),
}

impl<E> Progress<E> {
    /// The progress with texts for its strings.
    spec fn state(self) -> LookupView<E> {
        LookupView {
            wanted: Wanted {
                title: self.title@,
                album_name: self.album_name@,
                artist_name: self.artist_name@,
                duration: self.duration,
            },
            artists: texts(self.artists@),
            stage: match self.stage {
                Stage::Whole(i) => StageView::Whole(i as int),
                Stage::Stripped(stripped, i) => StageView::Stripped(stripped@, i as int),
                Stage::Normalized => StageView::Normalized,
            },
            exact: self.exact,
            candidates: self.candidates@,
            error: match self.search_error {
                Some(e) => Some(e@),
                None => None,
            },
        }
    }
}

impl<E> View for Lookup<E> {
    type V = LookupView<E>;

    closed spec fn view(&self) -> LookupView<E> {
        self.progress.state()
    }
}

impl<E> View for Step<E> {
    type V = StepView<E>;

    open spec fn view(&self) -> StepView<E> {
        match self {
            Step::Search { title, artist_name, next } => StepView::Search {
                title: title@,
                artist_name: artist_name@,
                next: next@,
            },
            Step::Done(result) => StepView::Done(result_view(*result)),
        }
    }
}

impl<E> LookupView<E> {
    /// There is an artist at the place where the lookup stands.
    pub open spec fn well_formed(self) -> bool {
        &&& self.artists.len() > 0
        &&& self.stage matches StageView::Whole(i) ==> 0 <= i < self.artists.len()
        &&& self.stage matches StageView::Stripped(_, i) ==> 0 <= i < self.artists.len()
    }
}

/// The best rank stands at one place only.
proof fn lemma_best_unique(items: Seq<SearchItem>, wanted: Wanted, model: TextModel, j: int, k: int)
    requires
        is_best(ranking(items, wanted, model), j),
        is_best(ranking(items, wanted, model), k),
    ensures
        j == k,
{
    let ranks = ranking(items, wanted, model);
    assert(ranks[j] is Some && ranks[k] is Some);
}

/// Tracks have one fallback.
pub proof fn lemma_fallback_unique(
    items: Seq<SearchItem>,
    wanted: Wanted,
    model: TextModel,
    out: Option<RawResponse>,
)
    requires
        is_fallback(items, wanted, model, out),
    ensures
        out == fallback_of(items, wanted, model),
{
    let ranks = ranking(items, wanted, model);
    let other = fallback_of(items, wanted, model);
    assert(is_fallback(items, wanted, model, other));
    if out is Some && other is Some {
        let j = choose|k: int| #[trigger]
            is_best(ranks, k) && out->0 == offered(items[k], ranks[k]->0.tier);
        let k = choose|k: int| #[trigger]
            is_best(ranks, k) && other->0 == offered(items[k], ranks[k]->0.tier);
        lemma_best_unique(items, wanted, model, j, k);
    } else if out is Some {
        let j = choose|k: int| #[trigger] is_best(ranks, k);
        assert(ranks[j] is Some);
    } else if other is Some {
        let j = choose|k: int| #[trigger] is_best(ranks, k);
        assert(ranks[j] is Some);
    }
}

/// The names under which an artist is searched for.
pub fn artists_to_search(artist_name: &str) -> (out: Vec<String>)
    ensures
        texts(out@) == searched_artists(artist_name@),
        out@.len() > 0,
{
    let mut all: Vec<String> = Vec::new();
    all.push(artist_name.to_owned());
    let ghost first = all@;
    let mut others = artist_variants(artist_name);
    let ghost named = others@;
    all.append(&mut others);
    assert(texts(all@) =~= seq![artist_name@] + variants(artist_name@)) by {
        assert(texts(first) =~= seq![artist_name@]);
        assert(texts(all@) =~= texts(first) + texts(named));
    }
    let mut out: Vec<String> = Vec::new();
    assert(texts(out@) =~= without_repeats(texts(all@).take(0)));
    let mut i: usize = 0;
    while i < all.len()
        invariant
            i <= all@.len(),
            texts(out@) == without_repeats(texts(all@).take(i as int)),
            i > 0 ==> out@.len() > 0,
        decreases all@.len() - i,
    {
        let ghost before = out@;
        proof {
            assert(texts(all@).take(i + 1).drop_last() =~= texts(all@).take(i as int));
            assert(texts(all@).take(i + 1).last() == all@[i as int]@);
            if before.len() > 0 {
                assert(texts(before).last() == before.last()@);
            }
        }
        let repeated = out.len() > 0 && out[out.len() - 1] == all[i];
        if !repeated {
            out.push(all[i].clone());
            assert(texts(out@) =~= texts(before).push(all@[i as int]@));
        }
        i += 1;
    }
    assert(texts(all@).take(all@.len() as int) =~= texts(all@));
    out
}

/// Whether one of the tracks is the wanted one and has synced lyrics.
pub fn has_exact_synced_candidate<
    P: Fn(&str) -> String,
    L: Fn(&str) -> Option<LyricsPresence>,
>(
    candidates: &Vec<SearchItem>,
    title: &str,
    artist_name: &str,
    duration: Seconds,
    tools: &TextTools<P, L>,
) -> (out: bool)
    requires
        tools.usable(),
    ensures
        forall|model: TextModel, wanted: Wanted| #[trigger]
            tools.follows(model) && wanted.title == title@ && wanted.artist_name == artist_name@
                && wanted.duration == duration ==> out == #[trigger] has_exact_synced(
                candidates@,
                wanted,
                model,
            ),
{
    let wanted_title = normalize_name(title, &tools.prepare_input);
    let wanted_artist = normalize_artist(artist_name, &tools.prepare_input);
    let mut i: usize = 0;
    while i < candidates.len()
        invariant
            tools.usable(),
            i <= candidates@.len(),
            forall|model: TextModel, wanted: Wanted, j: int| #[trigger]
                tools.follows(model) && wanted.title == title@ && wanted.artist_name == artist_name@
                    && wanted.duration == duration && 0 <= j < i ==> !#[trigger] is_exact_synced(
                    candidates@[j],
                    wanted,
                    model,
                ),
            forall|model: TextModel| #[trigger]
                tools.follows(model) ==> wanted_title@ == title_key(title@, model)
                    && wanted_artist@ == artist_key(artist_name@, model),
        decreases candidates@.len() - i,
    {
        let item = &candidates[i];
        let same_title = match &item.name {
            Some(name) => normalize_name(name.as_str(), &tools.prepare_input) == wanted_title,
            None => false,
        };
        let by_artist = match &item.artist_name {
            Some(name) => normalize_artist(name.as_str(), &tools.prepare_input) == wanted_artist,
            None => false,
        };
        if duration_tier(item.duration, duration) == 0 && has_synced_lyrics(
            as_text(&item.synced_lyrics),
            as_text(&item.lyricsfile),
            &tools.lyrics_presence,
        ) && same_title && by_artist {
            assert forall|model: TextModel, wanted: Wanted| #[trigger]
                tools.follows(model) && wanted.title == title@ && wanted.artist_name == artist_name@
                    && wanted.duration == duration implies #[trigger] has_exact_synced(
                candidates@,
                wanted,
                model,
            ) by {
                assert(is_exact_synced(candidates@[i as int], wanted, model));
            }
            return true;
        }
        i += 1;
    }
    false
}

impl<E> Progress<E> {
    /// Keeps what an answer tells: more tracks, or an error in place of an earlier one.
    fn learn(&mut self, reply: Result<Vec<SearchItem>, RequestError<E>>)
        ensures
            final(self).state() == informed(old(self).state(), reply_view(reply)),
    {
        match reply {
            Ok(items) => {
                let mut items = items;
                self.candidates.append(&mut items);
            },
            Err(error) => {
                self.search_error = Some(error);
            },
        }
    }

    /// Ends the lookup.
    fn finish<P: Fn(&str) -> String, L: Fn(&str) -> Option<LyricsPresence>>(
        self,
        fallback: Option<RawResponse>,
        tools: &TextTools<P, L>,
    ) -> (out: Step<E>)
        requires
            tools.usable(),
        ensures
            forall|model: TextModel| #[trigger]
                tools.follows(model) ==> out@ == finished(self.state(), fallback, model),
            fallback is None ==> out@ == ended(self.state()),
    {
        match choose_response(self.exact, fallback, self.duration, tools) {
            Some(response) => Step::Done(Ok(response)),
            None => match self.search_error {
                Some(error) => Step::Done(Err(error)),
                None => Step::Done(Err(RequestError::Response(ResponseError::no_lyrics()))),
            },
        }
    }

    /// Goes on after the searches by title and artists.
    fn conclude<P: Fn(&str) -> String, L: Fn(&str) -> Option<LyricsPresence>>(
        self,
        tools: &TextTools<P, L>,
    ) -> (out: Step<E>)
        requires
            tools.usable(),
            self.state().artists.len() > 0,
        ensures
            forall|model: TextModel| #[trigger]
                tools.follows(model) ==> out@ == concluded(self.state(), model),
    {
        let mut lookup = self;
        let mut candidates: Vec<SearchItem> = Vec::new();
        core::mem::swap(&mut candidates, &mut lookup.candidates);
        let ghost found = candidates@;
        let fallback = select_fallback(
            candidates,
            lookup.title.as_str(),
            lookup.album_name.as_str(),
            lookup.artist_name.as_str(),
            lookup.duration,
            tools,
        );
        assert forall|model: TextModel| #[trigger] tools.follows(model) implies fallback
            == fallback_of(self.state().candidates, self.state().wanted, model) by {
            lemma_fallback_unique(found, self.state().wanted, model, fallback);
        }
        let normalized_title = normalize_name(lookup.title.as_str(), &tools.prepare_input);
        if fallback.is_none() && !normalized_title.as_str().is_empty()
            && !lookup.title.as_str().trim().eq_ignore_ascii_case(normalized_title.as_str()) {
            let artist_name = lookup.artist_name.clone();
            lookup.stage = Stage::Normalized;
            return Step::Search {
                title: normalized_title,
                artist_name,
                next: Lookup { progress: lookup },
            };
        }
        lookup.finish(fallback, tools)
    }
}

impl<E> Lookup<E> {
    /// There is an artist at the place where the lookup stands.
    #[verifier::type_invariant]
    spec fn in_place(self) -> bool {
        self.progress.state().well_formed()
    }

    /// Goes on with the answer to the search that the lookup waits for.
    pub fn resume<P: Fn(&str) -> String, L: Fn(&str) -> Option<LyricsPresence>>(
        self,
        reply: Result<Vec<SearchItem>, RequestError<E>>,
        tools: &TextTools<P, L>,
    ) -> (out: Step<E>)
        requires
            tools.usable(),
        ensures
            forall|model: TextModel| #[trigger]
                tools.follows(model) ==> out@ == resumed(self@, reply_view(reply), model),
            next_artist(self@, reply_view(reply)) matches Some(step) ==> out@ == step,
            self@.stage is Normalized && reply is Err ==> out@ == ended(
                informed(self@, reply_view(reply)),
            ),
    {
        proof {
            use_type_invariant(&self);
        }
        let mut lookup = self.progress;
        let mut stage = Stage::Normalized;
        core::mem::swap(&mut stage, &mut lookup.stage);
        match stage {
            Stage::Whole(i) => {
                lookup.learn(reply);
                if i < lookup.artists.len() - 1 {
                    let title = lookup.title.clone();
                    let artist_name = lookup.artists[i + 1].clone();
                    lookup.stage = Stage::Whole(i + 1);
                    return Step::Search { title, artist_name, next: Lookup { progress: lookup } };
                }
                if let Some(stripped) = title_without_parentheses(lookup.title.as_str()) {
                    if !has_exact_synced_candidate(
                        &lookup.candidates,
                        lookup.title.as_str(),
                        lookup.artist_name.as_str(),
                        lookup.duration,
                        tools,
                    ) {
                        let artist_name = lookup.artists[0].clone();
                        lookup.stage = Stage::Stripped(stripped.clone(), 0);
                        return Step::Search {
                            title: stripped,
                            artist_name,
                            next: Lookup { progress: lookup },
                        };
                    }
                }
                lookup.conclude(tools)
            },
            Stage::Stripped(stripped, i) => {
                lookup.learn(reply);
                if i < lookup.artists.len() - 1 {
                    let artist_name = lookup.artists[i + 1].clone();
                    lookup.stage = Stage::Stripped(stripped.clone(), i + 1);
                    return Step::Search {
                        title: stripped,
                        artist_name,
                        next: Lookup { progress: lookup },
                    };
                }
                lookup.conclude(tools)
            },
            Stage::Normalized => match reply {
                Ok(items) => {
                    let ghost found = items@;
                    let fallback = select_fallback(
                        items,
                        lookup.title.as_str(),
                        lookup.album_name.as_str(),
                        lookup.artist_name.as_str(),
                        lookup.duration,
                        tools,
                    );
                    assert forall|model: TextModel| #[trigger]
                        tools.follows(model) implies fallback == fallback_of(
                        found,
                        self@.wanted,
                        model,
                    ) by {
                        lemma_fallback_unique(found, self@.wanted, model, fallback);
                    }
                    lookup.finish(fallback, tools)
                },
                Err(error) => {
                    lookup.search_error = Some(error);
                    lookup.finish(None, tools)
                },
            },
        }
    }
}

/// Goes on with a lookup after the answer to the request for the exact track. `duration` is the
/// wanted one, in whole seconds.
pub fn request_raw<E, P: Fn(&str) -> String, L: Fn(&str) -> Option<LyricsPresence>>(
    title: &str,
    album_name: &str,
    artist_name: &str,
    duration: Seconds,
    exact: Result<RawResponse, RequestError<E>>,
    tools: &TextTools<P, L>,
) -> (out: Step<E>)
    requires
        tools.usable(),
    ensures
        forall|model: TextModel| #[trigger]
            tools.follows(model) ==> out@ == begun(
                (Wanted {
                    title: title@,
                    album_name: album_name@,
                    artist_name: artist_name@,
                    duration,
                }),
                result_view(exact),
                model,
            ),
        exact matches Ok(response) ==> (response.instrumental || present(response.synced_lyrics)
            ==> out@ == StepView::<E>::Done(Ok(response))),
        exact matches Err(e) ==> out@ == begun_after_error(
            (Wanted {
                title: title@,
                album_name: album_name@,
                artist_name: artist_name@,
                duration,
            }),
            e@,
        ),
{
    let mut known: Option<RawResponse> = None;
    let mut search_error: Option<RequestError<E>> = None;
    match exact {
        Ok(response) => {
            if has_synced_lyrics(
                as_text(&response.synced_lyrics),
                as_text(&response.lyricsfile),
                &tools.lyrics_presence,
            ) || response.instrumental {
                return Step::Done(Ok(response));
            }
            known = Some(response);
        },
        Err(error) => {
            if !is_not_found(&error) {
                let refused = match &error {
                    RequestError::Api(e) => e.status_code == 400,
                    _ => false,
                };
                if !refused {
                    return Step::Done(Err(error));
                }
                search_error = Some(error);
            }
        },
    }
    let artists = artists_to_search(artist_name);
    let first = artists[0].clone();
    let progress = Progress {
        title: title.to_owned(),
        album_name: album_name.to_owned(),
        artist_name: artist_name.to_owned(),
        duration,
        artists,
        stage: Stage::Whole(0),
        exact: known,
        candidates: Vec::new(),
        search_error,
    };
    Step::Search { title: title.to_owned(), artist_name: first, next: Lookup { progress } }
}

/// The view of a step holds what the step holds: the title and the artist that are searched for and
/// the lookup that goes on, or the outcome; and that of an answer the tracks in their order, or the
/// error.
pub proof fn law_step_views<E>(
    title: String,
    artist_name: String,
    next: Lookup<E>,
    result: Result<RawResponse, RequestError<E>>,
    items: Vec<SearchItem>,
    error: RequestError<E>,
)
    ensures
        (Step::Search { title, artist_name, next })@ == (StepView::Search {
            title: title@,
            artist_name: artist_name@,
            next: next@,
        }),
        Step::Done(result)@ == StepView::Done(
            match result {
                Ok(response) => Ok::<RawResponse, RequestErrorView<E>>(response),
                Err(e) => Err::<RawResponse, RequestErrorView<E>>(e@),
            },
        ),
        reply_view(Ok::<Vec<SearchItem>, RequestError<E>>(items)) == Ok::<
            Seq<SearchItem>,
            RequestErrorView<E>,
        >(items@),
        reply_view(Err::<Vec<SearchItem>, RequestError<E>>(error)) == Err::<
            Seq<SearchItem>,
            RequestErrorView<E>,
        >(error@),
{
}

} // verus!
