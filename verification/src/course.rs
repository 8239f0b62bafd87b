//! What whole lookups come to, whatever the server answers.

use crate::choice::{any_eligible, law_fallback_fits, law_fallback_found};
use crate::error::{no_lyrics_error, says_not_found, RequestErrorView};
use crate::fallback::{
    chosen, eligible, response_synced, same_artist, title_key, title_place, Wanted,
};
use crate::get::{tells_something, told_at_end, RawResponse, ResponseView};
use crate::lookup::{
    begun, concluded, fallback_of, has_exact_synced, informed, resumed, says_refused,
    searched_artists, searched_whole, searching, worth_normalizing, LookupView,
    StageView, StepView,
};
use crate::names::without_parentheses;
use crate::search::SearchItem;
use crate::spelling::law_searched_artists;
use crate::text::opt_text;
use crate::tools::TextModel;
use vstd::prelude::*;

verus! {

/// What came of a search: the tracks that were found, or an error.
pub type Reply<E> = Result<Seq<SearchItem>, RequestErrorView<E>>;

/// A server: its answer to the search with the given number, counted from zero, for a title by an
/// artist. To the same search it may answer something else another time.
pub type Server<E> = spec_fn(nat, Seq<char>, Seq<char>) -> Reply<E>;

/// The outcome of a lookup that has made `made` searches, and the number of those that it still
/// makes, when each is answered by `ask`; nothing if it makes more than `limit`.
pub open spec fn run<E>(
    step: StepView<E>,
    ask: Server<E>,
    model: TextModel,
    made: nat,
    limit: nat,
) -> Option<(Result<RawResponse, RequestErrorView<E>>, nat)>
    decreases limit,
{
    match step {
        StepView::Done(result) => Some((result, 0)),
        StepView::Search { title, artist_name, next } => if limit == 0 {
            None
        } else {
            match run(
                resumed(next, ask(made, title, artist_name), model),
                ask,
                model,
                made + 1,
                (limit - 1) as nat,
            ) {
                Some((result, n)) => Some((result, n + 1)),
                None => None,
            }
        },
    }
}

/// The searches that a lookup makes, by title and artist, when it has made `made` of them and each is
/// answered by `ask`; the first `limit` of them.
pub open spec fn asked<E>(
    step: StepView<E>,
    ask: Server<E>,
    model: TextModel,
    made: nat,
    limit: nat,
) -> Seq<(Seq<char>, Seq<char>)>
    decreases limit,
{
    match step {
        StepView::Done(_) => Seq::empty(),
        StepView::Search { title, artist_name, next } => if limit == 0 {
            Seq::empty()
        } else {
            seq![(title, artist_name)] + asked(
                resumed(next, ask(made, title, artist_name), model),
                ask,
                model,
                made + 1,
                (limit - 1) as nat,
            )
        },
    }
}

/// The searches for a title by each of the artists.
pub open spec fn by_each(title: Seq<char>, artists: Seq<Seq<char>>) -> Seq<
    (Seq<char>, Seq<char>),
> {
    Seq::new(artists.len(), |i: int| (title, artists[i]))
}

/// The answers to the searches for a title by each of the artists, after `made` others.
pub open spec fn replies<E>(
    ask: Server<E>,
    made: nat,
    title: Seq<char>,
    artists: Seq<Seq<char>>,
) -> Seq<Reply<E>> {
    Seq::new(artists.len(), |i: int| ask((made + i) as nat, title, artists[i]))
}

/// All tracks in a list of answers.
pub open spec fn tracks<E>(answers: Seq<Reply<E>>) -> Seq<SearchItem>
    decreases answers.len(),
{
    if answers.len() == 0 {
        Seq::empty()
    } else {
        match answers.last() {
            Ok(items) => tracks(answers.drop_last()) + items,
            Err(_) => tracks(answers.drop_last()),
        }
    }
}

/// The last error in a list of answers, or an earlier one if there is none.
pub open spec fn last_error<E>(
    earlier: Option<RequestErrorView<E>>,
    answers: Seq<Reply<E>>,
) -> Option<RequestErrorView<E>>
    decreases answers.len(),
{
    if answers.len() == 0 {
        earlier
    } else {
        match answers.last() {
            Ok(_) => last_error(earlier, answers.drop_last()),
            Err(e) => Some(e),
        }
    }
}

/// Whether the answer to the request for the exact track ends the lookup.
pub open spec fn settles<E>(
    exact: Result<RawResponse, RequestErrorView<E>>,
    model: TextModel,
) -> bool {
    match exact {
        Ok(response) => response_synced(response, model) || response.instrumental,
        Err(e) => !says_not_found(e) && !says_refused(e),
    }
}

/// The answers to the searches by title and artists: by the whole title, and then, unless that
/// found the wanted track with synced lyrics, by the title without its parts in parentheses.
pub open spec fn title_replies<E>(wanted: Wanted, ask: Server<E>, model: TextModel) -> Seq<
    Reply<E>,
> {
    let artists = searched_artists(wanted.artist_name);
    let whole = replies(ask, 0, wanted.title, artists);
    match without_parentheses(wanted.title) {
        Some(stripped) => if has_exact_synced(tracks(whole), wanted, model) {
            whole
        } else {
            whole + replies(ask, artists.len(), stripped, artists)
        },
        None => whole,
    }
}

/// What a lookup comes to, when each search is answered by `ask`.
pub open spec fn outcome<E>(
    wanted: Wanted,
    exact: Result<RawResponse, RequestErrorView<E>>,
    ask: Server<E>,
    model: TextModel,
) -> Result<RawResponse, RequestErrorView<E>> {
    if settles(exact, model) {
        exact
    } else {
        let own = match exact {
            Ok(response) => Some(response),
            Err(_) => None,
        };
        let refusal = match exact {
            Ok(_) => None,
            Err(e) => if says_not_found(e) {
                None
            } else {
                Some(e)
            },
        };
        let answers = title_replies(wanted, ask, model);
        let found = fallback_of(tracks(answers), wanted, model);
        let again = found is None && worth_normalizing(wanted.title, model);
        let last = ask(answers.len(), title_key(wanted.title, model), wanted.artist_name);
        let fallback = if !again {
            found
        } else {
            match last {
                Ok(items) => fallback_of(items, wanted, model),
                Err(_) => None,
            }
        };
        match chosen(own, fallback, wanted.duration, model) {
            Some(response) => Ok(response),
            None => match last_error(
                refusal,
                if again {
                    answers.push(last)
                } else {
                    answers
                },
            ) {
                Some(e) => Err(e),
                None => Err(no_lyrics_error()),
            },
        }
    }
}

/// The run of the searches by the whole title, from the artist at `i` on.
proof fn lemma_whole<E>(
    state: LookupView<E>,
    refusal: Option<RequestErrorView<E>>,
    i: int,
    ask: Server<E>,
    model: TextModel,
    limit: nat,
)
    requires
        0 <= i < state.artists.len(),
        state.stage == StageView::Whole(i),
        limit >= state.artists.len() - i,
        ({
            let answers = replies(ask, 0, state.wanted.title, state.artists);
            &&& state.candidates == tracks(answers.take(i))
            &&& state.error == last_error(refusal, answers.take(i))
        }),
    ensures
        ({
            let answers = replies(ask, 0, state.wanted.title, state.artists);
            let left = state.artists.len() - i;
            let known = LookupView {
                candidates: tracks(answers),
                error: last_error(refusal, answers),
                stage: StageView::Whole(state.artists.len() - 1),
                ..state
            };
            let step = StepView::Search {
                title: state.wanted.title,
                artist_name: state.artists[i],
                next: state,
            };
            run(step, ask, model, i as nat, limit) == match run(
                searched_whole(known, model),
                ask,
                model,
                state.artists.len(),
                (limit - left) as nat,
            ) {
                Some((result, n)) => Some((result, (n + left) as nat)),
                None => None,
            }
        }),
        ({
            let answers = replies(ask, 0, state.wanted.title, state.artists);
            let known = LookupView {
                candidates: tracks(answers),
                error: last_error(refusal, answers),
                stage: StageView::Whole(state.artists.len() - 1),
                ..state
            };
            let step = StepView::Search {
                title: state.wanted.title,
                artist_name: state.artists[i],
                next: state,
            };
            asked(step, ask, model, i as nat, limit) == by_each(
                state.wanted.title,
                state.artists.skip(i),
            ) + asked(
                searched_whole(known, model),
                ask,
                model,
                state.artists.len(),
                (limit - (state.artists.len() - i)) as nat,
            )
        }),
    decreases state.artists.len() - i,
{
    let title = state.wanted.title;
    assert(by_each(title, state.artists.skip(i)) =~= seq![(title, state.artists[i])] + by_each(
        title,
        state.artists.skip(i + 1),
    ));
    let answers = replies(ask, 0, state.wanted.title, state.artists);
    let reply = ask(i as nat, state.wanted.title, state.artists[i]);
    assert(answers.take(i + 1).drop_last() =~= answers.take(i));
    assert(answers.take(i + 1).last() == reply);
    let known = informed(state, reply);
    assert(known.candidates =~= tracks(answers.take(i + 1)));
    assert(known.error == last_error(refusal, answers.take(i + 1)));
    if i + 1 < state.artists.len() {
        let next = LookupView { stage: StageView::Whole(i + 1), ..known };
        lemma_whole(next, refusal, i + 1, ask, model, (limit - 1) as nat);
        assert(next.artists.skip(i + 1) == state.artists.skip(i + 1));
    } else {
        assert(answers.take(i + 1) =~= answers);
    }
    let step = StepView::Search { title, artist_name: state.artists[i], next: state };
    let known = LookupView {
        candidates: tracks(answers),
        error: last_error(refusal, answers),
        stage: StageView::Whole(state.artists.len() - 1),
        ..state
    };
    assert(asked(step, ask, model, i as nat, limit) =~= by_each(title, state.artists.skip(i))
        + asked(
        searched_whole(known, model),
        ask,
        model,
        state.artists.len(),
        (limit - (state.artists.len() - i)) as nat,
    ));
}

/// The run of the searches by the title without its parts in parentheses, from the artist at `i`
/// on.
proof fn lemma_stripped<E>(
    state: LookupView<E>,
    refusal: Option<RequestErrorView<E>>,
    before: Seq<Reply<E>>,
    stripped: Seq<char>,
    i: int,
    ask: Server<E>,
    model: TextModel,
    limit: nat,
)
    requires
        0 <= i < state.artists.len(),
        state.stage == StageView::Stripped(stripped, i),
        limit >= state.artists.len() - i,
        ({
            let answers = before + replies(ask, before.len(), stripped, state.artists);
            &&& state.candidates == tracks(answers.take(before.len() + i))
            &&& state.error == last_error(refusal, answers.take(before.len() + i))
        }),
    ensures
        ({
            let answers = before + replies(ask, before.len(), stripped, state.artists);
            let left = state.artists.len() - i;
            let known = LookupView {
                candidates: tracks(answers),
                error: last_error(refusal, answers),
                stage: StageView::Stripped(stripped, state.artists.len() - 1),
                ..state
            };
            let step = StepView::Search {
                title: stripped,
                artist_name: state.artists[i],
                next: state,
            };
            run(step, ask, model, (before.len() + i) as nat, limit) == match run(
                concluded(known, model),
                ask,
                model,
                answers.len(),
                (limit - left) as nat,
            ) {
                Some((result, n)) => Some((result, (n + left) as nat)),
                None => None,
            }
        }),
        ({
            let answers = before + replies(ask, before.len(), stripped, state.artists);
            let known = LookupView {
                candidates: tracks(answers),
                error: last_error(refusal, answers),
                stage: StageView::Stripped(stripped, state.artists.len() - 1),
                ..state
            };
            let step = StepView::Search {
                title: stripped,
                artist_name: state.artists[i],
                next: state,
            };
            asked(step, ask, model, (before.len() + i) as nat, limit) == by_each(
                stripped,
                state.artists.skip(i),
            ) + asked(
                concluded(known, model),
                ask,
                model,
                answers.len(),
                (limit - (state.artists.len() - i)) as nat,
            )
        }),
    decreases state.artists.len() - i,
{
    assert(by_each(stripped, state.artists.skip(i)) =~= seq![(stripped, state.artists[i])]
        + by_each(stripped, state.artists.skip(i + 1)));
    let answers = before + replies(ask, before.len(), stripped, state.artists);
    let reply = ask((before.len() + i) as nat, stripped, state.artists[i]);
    let at = before.len() + i;
    assert(answers.take(at + 1).drop_last() =~= answers.take(at as int));
    assert(answers.take(at + 1).last() == reply);
    let known = informed(state, reply);
    assert(known.candidates =~= tracks(answers.take(at + 1)));
    assert(known.error == last_error(refusal, answers.take(at + 1)));
    if i + 1 < state.artists.len() {
        let next = LookupView { stage: StageView::Stripped(stripped, i + 1), ..known };
        lemma_stripped(next, refusal, before, stripped, i + 1, ask, model, (limit - 1) as nat);
        assert(next.artists.skip(i + 1) == state.artists.skip(i + 1));
    } else {
        assert(answers.take(at + 1) =~= answers);
    }
    let step = StepView::Search { title: stripped, artist_name: state.artists[i], next: state };
    let known = LookupView {
        candidates: tracks(answers),
        error: last_error(refusal, answers),
        stage: StageView::Stripped(stripped, state.artists.len() - 1),
        ..state
    };
    assert(asked(step, ask, model, at as nat, limit) =~= by_each(stripped, state.artists.skip(i))
        + asked(
        concluded(known, model),
        ask,
        model,
        answers.len(),
        (limit - (state.artists.len() - i)) as nat,
    ));
}

/// How many searches a lookup makes.
pub open spec fn searches<E>(
    wanted: Wanted,
    exact: Result<RawResponse, RequestErrorView<E>>,
    ask: Server<E>,
    model: TextModel,
) -> nat {
    if settles(exact, model) {
        0
    } else {
        let answers = title_replies(wanted, ask, model);
        if fallback_of(tracks(answers), wanted, model) is None && worth_normalizing(
            wanted.title,
            model,
        ) {
            answers.len() + 1
        } else {
            answers.len()
        }
    }
}

/// The run that follows the searches by title and artists.
proof fn lemma_concluded<E>(
    state: LookupView<E>,
    ask: Server<E>,
    model: TextModel,
    made: nat,
    limit: nat,
)
    requires
        limit > 0,
    ensures
        ({
            let found = fallback_of(state.candidates, state.wanted, model);
            let again = found is None && worth_normalizing(state.wanted.title, model);
            let last = ask(made, title_key(state.wanted.title, model), state.wanted.artist_name);
            let (fallback, error) = if !again {
                (found, state.error)
            } else {
                match last {
                    Ok(items) => (fallback_of(items, state.wanted, model), state.error),
                    Err(e) => (None, Some(e)),
                }
            };
            let result = match chosen(state.exact, fallback, state.wanted.duration, model) {
                Some(response) => Ok(response),
                None => match error {
                    Some(e) => Err(e),
                    None => Err(no_lyrics_error()),
                },
            };
            run(concluded(state, model), ask, model, made, limit) == Some(
                (result, if again { 1nat } else { 0nat }),
            )
        }),
        asked(concluded(state, model), ask, model, made, limit) == (if fallback_of(
            state.candidates,
            state.wanted,
            model,
        ) is None && worth_normalizing(state.wanted.title, model) {
            seq![(title_key(state.wanted.title, model), state.wanted.artist_name)]
        } else {
            Seq::empty()
        }),
{
    reveal_with_fuel(run, 2);
    reveal_with_fuel(asked, 2);
    assert(asked(concluded(state, model), ask, model, made, limit) =~= (if fallback_of(
        state.candidates,
        state.wanted,
        model,
    ) is None && worth_normalizing(state.wanted.title, model) {
        seq![(title_key(state.wanted.title, model), state.wanted.artist_name)]
    } else {
        Seq::empty()
    }));
}

/// The searches of a lookup, one after the other.
pub open spec fn courses<E>(
    wanted: Wanted,
    exact: Result<RawResponse, RequestErrorView<E>>,
    ask: Server<E>,
    model: TextModel,
) -> Seq<(Seq<char>, Seq<char>)> {
    if settles(exact, model) {
        Seq::empty()
    } else {
        let artists = searched_artists(wanted.artist_name);
        let whole = by_each(wanted.title, artists);
        let titles = match without_parentheses(wanted.title) {
            Some(stripped) => if has_exact_synced(
                tracks(replies(ask, 0, wanted.title, artists)),
                wanted,
                model,
            ) {
                whole
            } else {
                whole + by_each(stripped, artists)
            },
            None => whole,
        };
        let found = fallback_of(tracks(title_replies(wanted, ask, model)), wanted, model);
        if found is None && worth_normalizing(wanted.title, model) {
            titles + seq![(title_key(wanted.title, model), wanted.artist_name)]
        } else {
            titles
        }
    }
}

/// A lookup comes to an end whatever the server answers, after eleven searches at most, and what
/// it comes to is what `outcome` says.
pub proof fn law_lookup<E>(
    wanted: Wanted,
    exact: Result<RawResponse, RequestErrorView<E>>,
    ask: Server<E>,
    model: TextModel,
)
    ensures
        run(begun(wanted, exact, model), ask, model, 0, 11) == Some(
            (outcome(wanted, exact, ask, model), searches(wanted, exact, ask, model)),
        ),
        searches(wanted, exact, ask, model) <= 11,
        asked(begun(wanted, exact, model), ask, model, 0, 11) == courses(wanted, exact, ask, model),
        courses(wanted, exact, ask, model).len() == searches(wanted, exact, ask, model),
{
    if !settles(exact, model) {
        assert(searched_artists(wanted.artist_name).skip(0) =~= searched_artists(
            wanted.artist_name,
        ));
        let artists = searched_artists(wanted.artist_name);
        let n = artists.len();
        law_searched_artists(wanted.artist_name);
        let own = match exact {
            Ok(response) => Some(response),
            Err(_) => None,
        };
        let refusal = match exact {
            Ok(_) => None,
            Err(e) => if says_not_found(e) {
                None
            } else {
                Some(e)
            },
        };
        let first = LookupView {
            wanted,
            artists,
            stage: StageView::Whole(0),
            exact: own,
            candidates: Seq::empty(),
            error: refusal,
        };
        let whole = replies(ask, 0, wanted.title, artists);
        assert(whole.take(0) =~= Seq::empty());
        assert(begun(wanted, exact, model) == searching(wanted, own, refusal));
        lemma_whole(first, refusal, 0, ask, model, 11);
        let known = LookupView {
            candidates: tracks(whole),
            error: last_error(refusal, whole),
            stage: StageView::Whole(n - 1),
            ..first
        };
        let answers = title_replies(wanted, ask, model);
        let last = ask(answers.len(), title_key(wanted.title, model), wanted.artist_name);
        assert(answers.push(last).drop_last() =~= answers);
        assert(last_error(refusal, answers.push(last)) == match last {
            Ok(_) => last_error(refusal, answers),
            Err(e) => Some(e),
        });
        match without_parentheses(wanted.title) {
            Some(stripped) => {
                if has_exact_synced(known.candidates, wanted, model) {
                    lemma_concluded(known, ask, model, n, (11 - n) as nat);
                } else {
                    let second = LookupView { stage: StageView::Stripped(stripped, 0), ..known };
                    assert((whole + replies(ask, n, stripped, artists)).take(whole.len() as int)
                        =~= whole);
                    lemma_stripped(
                        second,
                        refusal,
                        whole,
                        stripped,
                        0,
                        ask,
                        model,
                        (11 - n) as nat,
                    );
                    let last_known = LookupView {
                        candidates: tracks(answers),
                        error: last_error(refusal, answers),
                        stage: StageView::Stripped(stripped, n - 1),
                        ..second
                    };
                    lemma_concluded(last_known, ask, model, n + n, (11 - n - n) as nat);
                }
            },
            None => {
                lemma_concluded(known, ask, model, n, (11 - n) as nat);
            },
        }
        assert(asked(begun(wanted, exact, model), ask, model, 0, 11) =~= courses(
            wanted,
            exact,
            ask,
            model,
        ));
    }
}

/// Synced lyrics of the exact track, or that it is instrumental, are the outcome, and so is an error
/// that says neither that nothing was found nor that the request was refused. No search is made.
pub proof fn law_exact_settles<E>(
    wanted: Wanted,
    exact: Result<RawResponse, RequestErrorView<E>>,
    ask: Server<E>,
    model: TextModel,
)
    requires
        settles(exact, model),
    ensures
        outcome(wanted, exact, ask, model) == exact,
        searches(wanted, exact, ask, model) == 0,
{
}

/// What was found is not lost, whatever else fails: a lookup succeeds if the exact track was found,
/// or a track that can be offered in its place, be it by the last search.
pub proof fn law_found_is_kept<E>(
    wanted: Wanted,
    exact: Result<RawResponse, RequestErrorView<E>>,
    ask: Server<E>,
    model: TextModel,
)
    requires
        exact is Ok || (!settles(exact, model) && ({
            let answers = title_replies(wanted, ask, model);
            let last = ask(answers.len(), title_key(wanted.title, model), wanted.artist_name);
            ||| any_eligible(tracks(answers), wanted, model)
            ||| worth_normalizing(wanted.title, model) && (last matches Ok(items) && any_eligible(
                items,
                wanted,
                model,
            ))
        })),
    ensures
        outcome(wanted, exact, ask, model) is Ok,
{
    let answers = title_replies(wanted, ask, model);
    law_fallback_found(tracks(answers), wanted, model);
    match ask(answers.len(), title_key(wanted.title, model), wanted.artist_name) {
        Ok(items) => law_fallback_found(items, wanted, model),
        Err(_) => {},
    }
}

/// A successful lookup gives the exact track or one that can be offered in its place.
pub proof fn law_outcome_fits<E>(
    wanted: Wanted,
    exact: Result<RawResponse, RequestErrorView<E>>,
    ask: Server<E>,
    model: TextModel,
)
    requires
        outcome(wanted, exact, ask, model) is Ok,
    ensures
        outcome(wanted, exact, ask, model) == exact || ({
            let out = outcome(wanted, exact, ask, model)->Ok_0;
            &&& title_place(opt_text(out.name), wanted.title, model) is Some
            &&& same_artist(opt_text(out.artist_name), wanted.artist_name, model)
            &&& tells_something(out)
        }),
{
    let answers = title_replies(wanted, ask, model);
    let found = tracks(answers);
    if fallback_of(found, wanted, model) is Some {
        law_fallback_fits(found, wanted, model);
    }
    match ask(answers.len(), title_key(wanted.title, model), wanted.artist_name) {
        Ok(items) => {
            if fallback_of(items, wanted, model) is Some {
                law_fallback_fits(items, wanted, model);
            }
        },
        Err(_) => {},
    }
}

/// Without an error there is none to report.
proof fn lemma_no_error<E>(answers: Seq<Reply<E>>)
    requires
        forall|i: int| 0 <= i < answers.len() ==> #[trigger] answers[i] is Ok,
    ensures
        last_error(None::<RequestErrorView<E>>, answers) is None,
    decreases answers.len(),
{
    if answers.len() > 0 {
        let before = answers.drop_last();
        assert forall|i: int| 0 <= i < before.len() implies #[trigger] before[i] is Ok by {
            assert(answers[i] is Ok);
        }
        lemma_no_error(before);
        assert(answers[answers.len() - 1] is Ok);
    }
}

/// If every search is answered, but neither the exact track nor one that can be offered is found,
/// the user is told that there are no lyrics, and of no failure.
pub proof fn law_nothing_found<E>(
    wanted: Wanted,
    exact: RequestErrorView<E>,
    ask: Server<E>,
    model: TextModel,
    strip: spec_fn(Seq<char>) -> Seq<char>,
)
    requires
        says_not_found(exact),
        forall|n: nat, title: Seq<char>, artist: Seq<char>| #[trigger] ask(n, title, artist) is Ok,
        forall|n: nat, title: Seq<char>, artist: Seq<char>, item: SearchItem|
            #![trigger ask(n, title, artist)->Ok_0.contains(item)]
            ask(n, title, artist)->Ok_0.contains(item) ==> !eligible(item, wanted, model),
    ensures
        outcome(wanted, Err(exact), ask, model) == Err::<RawResponse, RequestErrorView<E>>(
            no_lyrics_error(),
        ),
        told_at_end(outcome(wanted, Err(exact), ask, model), strip) == Ok::<
            ResponseView,
            RequestErrorView<E>,
        >(ResponseView::NoLyrics),
{
    let answers = title_replies(wanted, ask, model);
    let last = ask(answers.len(), title_key(wanted.title, model), wanted.artist_name);
    assert forall|i: int| 0 <= i < answers.len() implies #[trigger] answers[i] is Ok && forall|
        item: SearchItem|
        answers[i]->Ok_0.contains(item) ==> !eligible(item, wanted, model) by {
        let artists = searched_artists(wanted.artist_name);
        let n = artists.len();
        if i < n {
            assert(answers[i] == ask(i as nat, wanted.title, artists[i]));
        } else {
            let stripped = without_parentheses(wanted.title)->0;
            assert(answers[i] == ask(i as nat, stripped, artists[i - n]));
        }
    }
    lemma_no_error(answers);
    lemma_no_error(answers.push(last));
    lemma_none_eligible(answers, wanted, model);
    law_fallback_found(tracks(answers), wanted, model);
    law_fallback_found(last->Ok_0, wanted, model);
    assert forall|j: int| 0 <= j < last->Ok_0.len() implies !eligible(
        #[trigger] last->Ok_0[j],
        wanted,
        model,
    ) by {
        assert(last->Ok_0.contains(last->Ok_0[j]));
    }
}

/// Where no answer holds a track that can be offered, all of them together hold none.
proof fn lemma_none_eligible<E>(answers: Seq<Reply<E>>, wanted: Wanted, model: TextModel)
    requires
        forall|i: int, item: SearchItem|
            #![trigger answers[i]->Ok_0.contains(item)]
            0 <= i < answers.len() && answers[i] is Ok && answers[i]->Ok_0.contains(item)
                ==> !eligible(item, wanted, model),
    ensures
        forall|j: int|
            0 <= j < tracks(answers).len() ==> !eligible(
                #[trigger] tracks(answers)[j],
                wanted,
                model,
            ),
    decreases answers.len(),
{
    if answers.len() > 0 {
        let before = answers.drop_last();
        assert forall|i: int, item: SearchItem|
            #![trigger before[i]->Ok_0.contains(item)]
            0 <= i < before.len() && before[i] is Ok && before[i]->Ok_0.contains(item) implies
            !eligible(item, wanted, model) by {
            assert(answers[i]->Ok_0.contains(item));
        }
        lemma_none_eligible(before, wanted, model);
        assert forall|j: int| 0 <= j < tracks(answers).len() implies !eligible(
            #[trigger] tracks(answers)[j],
            wanted,
            model,
        ) by {
            let n = tracks(before).len();
            if j < n {
                assert(tracks(answers)[j] == tracks(before)[j]);
            } else {
                let items = answers[answers.len() - 1]->Ok_0;
                assert(tracks(answers)[j] == items[j - n]);
                assert(items.contains(items[j - n]));
            }
        }
    }
}

/// Why a lookup fails that the answer to the request for the exact track did not end: that answer
/// was an error, no track could be offered, and what is reported is the last error of a search, or
/// else the refusal of the request, or else that there are no lyrics.
pub proof fn law_failure<E>(
    wanted: Wanted,
    exact: Result<RawResponse, RequestErrorView<E>>,
    ask: Server<E>,
    model: TextModel,
)
    requires
        !settles(exact, model),
        outcome(wanted, exact, ask, model) is Err,
    ensures
        exact is Err,
        fallback_of(tracks(title_replies(wanted, ask, model)), wanted, model) is None,
        ({
            let e = outcome(wanted, exact, ask, model)->Err_0;
            let answers = title_replies(wanted, ask, model);
            let last = ask(answers.len(), title_key(wanted.title, model), wanted.artist_name);
            let heard = if worth_normalizing(wanted.title, model) {
                answers.push(last)
            } else {
                answers
            };
            ||| last_error(None, heard) == Some(e)
            ||| last_error(None::<RequestErrorView<E>>, heard) is None && says_refused(
                exact->Err_0,
            ) && e == exact->Err_0
            ||| last_error(None::<RequestErrorView<E>>, heard) is None && says_not_found(
                exact->Err_0,
            ) && e == no_lyrics_error::<E>()
        }),
{
    let answers = title_replies(wanted, ask, model);
    let last = ask(answers.len(), title_key(wanted.title, model), wanted.artist_name);
    let heard = if worth_normalizing(wanted.title, model) {
        answers.push(last)
    } else {
        answers
    };
    lemma_last_error(exact->Err_0, heard);
}

/// The last error of a list, with an earlier one and without.
proof fn lemma_last_error<E>(earlier: RequestErrorView<E>, answers: Seq<Reply<E>>)
    ensures
        last_error(Some(earlier), answers) == match last_error(None, answers) {
            Some(e) => Some(e),
            None => Some(earlier),
        },
    decreases answers.len(),
{
    if answers.len() > 0 {
        lemma_last_error(earlier, answers.drop_last());
    }
}

/// The tracks of answers are those of each answer, in the order of the answers; an error has none.
pub proof fn law_tracks<E>(
    answers: Seq<Reply<E>>,
    items: Seq<SearchItem>,
    error: RequestErrorView<E>,
)
    ensures
        tracks(Seq::<Reply<E>>::empty()) == Seq::<SearchItem>::empty(),
        tracks(answers.push(Ok(items))) == tracks(answers) + items,
        tracks(answers.push(Err(error))) == tracks(answers),
        last_error(None, answers.push(Ok(items))) == last_error(None, answers),
        last_error(None, answers.push(Err(error))) == Some(error),
{
    assert(answers.push(Ok(items)).drop_last() =~= answers);
    assert(answers.push(Err(error)).drop_last() =~= answers);
}

/// What follows the answer to a search by one artist, while others are left: the search for the same
/// title by the next artist, with all that is known and what the answer tells, its tracks behind those
/// known or its error in place of an earlier one.
pub proof fn law_next_artist<E>(
    state: LookupView<E>,
    reply: Reply<E>,
    model: TextModel,
    i: int,
)
    requires
        state.stage == StageView::Whole(i),
        i + 1 < state.artists.len(),
    ensures
        resumed(state, reply, model) matches StepView::Search { title, artist_name, next } && {
            &&& title == state.wanted.title
            &&& artist_name == state.artists[i + 1]
            &&& next.wanted == state.wanted
            &&& next.artists == state.artists
            &&& next.stage == StageView::Whole(i + 1)
            &&& next.exact == state.exact
            &&& reply matches Ok(items) ==> next.candidates == state.candidates + items
                && next.error == state.error
            &&& reply matches Err(e) ==> next.candidates == state.candidates && next.error == Some(e)
        },
{
}

/// The same for the title without its parts in parentheses.
pub proof fn law_next_stripped<E>(
    state: LookupView<E>,
    reply: Reply<E>,
    model: TextModel,
    stripped: Seq<char>,
    i: int,
)
    requires
        state.stage == StageView::Stripped(stripped, i),
        i + 1 < state.artists.len(),
    ensures
        resumed(state, reply, model) matches StepView::Search { title, artist_name, next } && {
            &&& title == stripped
            &&& artist_name == state.artists[i + 1]
            &&& next.wanted == state.wanted
            &&& next.artists == state.artists
            &&& next.stage == StageView::Stripped(stripped, i + 1)
            &&& next.exact == state.exact
            &&& reply matches Ok(items) ==> next.candidates == state.candidates + items
                && next.error == state.error
            &&& reply matches Err(e) ==> next.candidates == state.candidates && next.error == Some(e)
        },
{
}

} // verus!
