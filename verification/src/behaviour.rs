//! What a lookup does, said of the searches that it makes, of the answers to them and of its end.

use crate::choice::{acceptable, law_fallback_found, lemma_acceptable, lemma_fallback};
use crate::course::{
    asked, courses, last_error, law_lookup, replies, run, settles, title_replies, tracks, Reply,
    Server,
};
use crate::duration::tier;
use crate::error::RequestErrorView;
use crate::fallback::{
    artist_key, eligible, is_best, is_fallback, item_synced, offered, ranking, response_synced,
    title_key, Wanted,
};
use crate::get::RawResponse;
use crate::lookup::{
    begun, fallback_of, has_exact_synced, is_exact_synced, lemma_fallback_unique, searched_artists,
    worth_normalizing,
};
use crate::names::{variants, without_parentheses};
use crate::search::SearchItem;
use crate::spelling::law_searched_artists;
use crate::text::{ascii_lowered, trimmed};
use crate::tools::TextModel;
use vstd::prelude::*;

verus! {

/// The answers to searches.
pub open spec fn heard<E>(ask: Server<E>, made: Seq<(Seq<char>, Seq<char>)>) -> Seq<Reply<E>> {
    Seq::new(made.len(), |i: int| ask(i as nat, made[i].0, made[i].1))
}

/// What a lookup comes to, when each search is answered by `ask`.
pub open spec fn end<E>(
    wanted: Wanted,
    exact: Result<RawResponse, RequestErrorView<E>>,
    ask: Server<E>,
    model: TextModel,
) -> Result<RawResponse, RequestErrorView<E>> {
    let (result, _) = run(begun(wanted, exact, model), ask, model, 0, 11)->0;
    result
}

/// Whether the answer to the request for the exact track leaves the lookup open: it has no synced
/// lyrics and is not instrumental, or it is an error that says, with the status 404, that nothing was
/// found or, with the status 400, that the request was refused.
pub open spec fn leaves_open<E>(
    exact: Result<RawResponse, RequestErrorView<E>>,
    model: TextModel,
) -> bool {
    match exact {
        Ok(response) => !response_synced(response, model) && !response.instrumental,
        Err(RequestErrorView::Response { status_code, .. }) => status_code == Some(404u16),
        Err(RequestErrorView::Api { status, .. }) => status == 400,
        Err(_) => false,
    }
}

/// What the searches of a lookup and the answers to them are.
proof fn lemma_heard<E>(
    wanted: Wanted,
    exact: Result<RawResponse, RequestErrorView<E>>,
    ask: Server<E>,
    model: TextModel,
)
    requires
        !settles(exact, model),
    ensures
        ({
            let made = asked(begun(wanted, exact, model), ask, model, 0, 11);
            let answers = title_replies(wanted, ask, model);
            let again = fallback_of(tracks(answers), wanted, model) is None && worth_normalizing(
                wanted.title,
                model,
            );
            let last = ask(answers.len(), title_key(wanted.title, model), wanted.artist_name);
            heard(ask, made) == (if again {
                answers.push(last)
            } else {
                answers
            })
        }),
{
    law_lookup(wanted, exact, ask, model);
    law_searched_artists(wanted.artist_name);
    let made = courses(wanted, exact, ask, model);
    let answers = title_replies(wanted, ask, model);
    let artists = searched_artists(wanted.artist_name);
    let n = artists.len();
    assert forall|i: int| 0 <= i < answers.len() implies #[trigger] answers[i] == heard(
        ask,
        made,
    )[i] by {
        if i < n {
            assert(answers[i] == ask(i as nat, wanted.title, artists[i]));
        } else {
            let stripped = without_parentheses(wanted.title)->0;
            assert(answers[i] == ask(i as nat, stripped, artists[i - n]));
        }
    }
    let again = fallback_of(tracks(answers), wanted, model) is None && worth_normalizing(
        wanted.title,
        model,
    );
    let last = ask(answers.len(), title_key(wanted.title, model), wanted.artist_name);
    assert(heard(ask, made) =~= (if again {
        answers.push(last)
    } else {
        answers
    }));
}

/// A lookup ends at once with the exact answer, if that has synced lyrics or is instrumental, and with
/// an error that says neither, with the status 404, that nothing was found nor, with the status 400,
/// that the request was refused. Else it makes at least one search, the first for the title and the
/// artist as they are given, and eleven at most.
pub proof fn law_begins<E>(
    wanted: Wanted,
    exact: Result<RawResponse, RequestErrorView<E>>,
    ask: Server<E>,
    model: TextModel,
)
    ensures
        ({
            let step = begun(wanted, exact, model);
            let made = asked(step, ask, model, 0, 11);
            let open = match exact {
                Ok(response) => !response_synced(response, model) && !response.instrumental,
                Err(RequestErrorView::Response { status_code, .. }) => status_code == Some(404u16),
                Err(RequestErrorView::Api { status, .. }) => status == 400,
                Err(RequestErrorView::InvalidUrl(_)) => false,
                Err(RequestErrorView::Other(_)) => false,
            };
            &&& run(step, ask, model, 0, 11) matches Some((_, count)) && count == made.len()
                && count <= 11
            &&& !open ==> run(step, ask, model, 0, 11) == Some((exact, 0nat))
            &&& open ==> made.len() > 0 && made[0] == (wanted.title, wanted.artist_name)
        }),
{
    law_lookup(wanted, exact, ask, model);
    law_searched_artists(wanted.artist_name);
}

/// The title is searched for by the artist as it is given, and then under each variant of the name.
pub proof fn law_each_artist<E>(
    wanted: Wanted,
    exact: Result<RawResponse, RequestErrorView<E>>,
    ask: Server<E>,
    model: TextModel,
    i: int,
)
    requires
        leaves_open(exact, model),
        0 <= i <= variants(wanted.artist_name).len(),
    ensures
        ({
            let made = asked(begun(wanted, exact, model), ask, model, 0, 11);
            let name = if i == 0 {
                wanted.artist_name
            } else {
                variants(wanted.artist_name)[i - 1]
            };
            i < made.len() && made[i] == (wanted.title, name)
        }),
{
    law_lookup(wanted, exact, ask, model);
    law_searched_artists(wanted.artist_name);
}

/// A track in a list of answers is one of all tracks in it, and the other way round.
proof fn lemma_tracks<E>(answers: Seq<Reply<E>>, item: SearchItem)
    ensures
        tracks(answers).contains(item) <==> exists|i: int|
            0 <= i < answers.len() && #[trigger] answers[i] is Ok && answers[i]->Ok_0.contains(item),
    decreases answers.len(),
{
    if answers.len() > 0 {
        let before = answers.drop_last();
        let last = answers.len() - 1;
        lemma_tracks(before, item);
        if tracks(answers).contains(item) {
            let j = choose|j: int| 0 <= j < tracks(answers).len() && tracks(answers)[j] == item;
            if j < tracks(before).len() {
                assert(tracks(before)[j] == item);
                let i = choose|i: int|
                    0 <= i < before.len() && #[trigger] before[i] is Ok && before[i]->Ok_0.contains(
                        item,
                    );
                assert(answers[i] is Ok);
            } else {
                let items = answers[last]->Ok_0;
                assert(items[j - tracks(before).len()] == item);
                assert(answers[last] is Ok);
            }
        }
        if exists|i: int|
            0 <= i < answers.len() && #[trigger] answers[i] is Ok && answers[i]->Ok_0.contains(
                item,
            ) {
            let i = choose|i: int|
                0 <= i < answers.len() && #[trigger] answers[i] is Ok && answers[i]->Ok_0.contains(
                    item,
                );
            if i < last {
                assert(before[i] is Ok);
                let j = choose|j: int| 0 <= j < tracks(before).len() && tracks(before)[j] == item;
                assert(tracks(answers)[j] == item);
            } else {
                let items = answers[last]->Ok_0;
                let j = choose|j: int| 0 <= j < items.len() && items[j] == item;
                assert(tracks(answers)[tracks(before).len() + j] == item);
            }
        }
    }
}

/// Where the searches for a title with parts in parentheses find no track of the wanted title and
/// artist, of the wanted duration to the second and with synced lyrics, the title without these parts
/// is searched for next, again by the artist under each name.
pub proof fn law_stripped_searched<E>(
    wanted: Wanted,
    exact: Result<RawResponse, RequestErrorView<E>>,
    ask: Server<E>,
    model: TextModel,
    stripped: Seq<char>,
    i: int,
)
    requires
        leaves_open(exact, model),
        without_parentheses(wanted.title) == Some(stripped),
        0 <= i <= variants(wanted.artist_name).len(),
        forall|n: nat, artist: Seq<char>, item: SearchItem|
            #![trigger ask(n, wanted.title, artist)->Ok_0.contains(item)]
            ask(n, wanted.title, artist) is Ok && ask(n, wanted.title, artist)->Ok_0.contains(item)
                ==> {
                ||| tier(item.duration, wanted.duration) != 0
                ||| !item_synced(item, model)
                ||| !(item.name matches Some(name) && title_key(name@, model) == title_key(
                    wanted.title,
                    model,
                ))
                ||| !(item.artist_name matches Some(artist) && artist_key(artist@, model)
                    == artist_key(wanted.artist_name, model))
            },
    ensures
        ({
            let made = asked(begun(wanted, exact, model), ask, model, 0, 11);
            let n = variants(wanted.artist_name).len() + 1;
            let name = if i == 0 {
                wanted.artist_name
            } else {
                variants(wanted.artist_name)[i - 1]
            };
            n + i < made.len() && made[n + i] == (stripped, name)
        }),
{
    law_lookup(wanted, exact, ask, model);
    law_searched_artists(wanted.artist_name);
    let artists = searched_artists(wanted.artist_name);
    let whole = replies(ask, 0, wanted.title, artists);
    if has_exact_synced(tracks(whole), wanted, model) {
        let items = tracks(whole);
        let j = choose|j: int|
            0 <= j < items.len() && is_exact_synced(
                #[trigger] items[j],
                wanted,
                model,
            );
        let item = items[j];
        lemma_tracks(whole, item);
        assert(items.contains(item));
        let k = choose|k: int|
            0 <= k < whole.len() && #[trigger] whole[k] is Ok && whole[k]->Ok_0.contains(item);
        assert(whole[k] == ask(k as nat, wanted.title, artists[k]));
        assert(ask(k as nat, wanted.title, artists[k])->Ok_0.contains(item));
    }
}

/// Where one of the searches for the title finds a track of the wanted title and artist, of the
/// wanted duration to the second and with synced lyrics, or where the title has no parts in
/// parentheses, the searches for the title are followed by one other at most.
pub proof fn law_stripped_spared<E>(
    wanted: Wanted,
    exact: Result<RawResponse, RequestErrorView<E>>,
    ask: Server<E>,
    model: TextModel,
    i: int,
    item: SearchItem,
)
    requires
        leaves_open(exact, model),
        ({
            let made = asked(begun(wanted, exact, model), ask, model, 0, 11);
            ||| without_parentheses(wanted.title) is None
            ||| {
                &&& 0 <= i <= variants(wanted.artist_name).len()
                &&& i < made.len()
                &&& heard(ask, made)[i] matches Ok(items) && items.contains(item)
                &&& tier(item.duration, wanted.duration) == 0
                &&& item_synced(item, model)
                &&& item.name matches Some(name) && title_key(name@, model) == title_key(
                    wanted.title,
                    model,
                )
                &&& item.artist_name matches Some(artist) && artist_key(artist@, model)
                    == artist_key(wanted.artist_name, model)
            }
        }),
    ensures
        asked(begun(wanted, exact, model), ask, model, 0, 11).len() <= variants(
            wanted.artist_name,
        ).len() + 2,
{
    law_lookup(wanted, exact, ask, model);
    law_searched_artists(wanted.artist_name);
    let artists = searched_artists(wanted.artist_name);
    let whole = replies(ask, 0, wanted.title, artists);
    if without_parentheses(wanted.title) is Some {
        let made = asked(begun(wanted, exact, model), ask, model, 0, 11);
        assert(made[i] == (wanted.title, artists[i]));
        assert(whole[i] == heard(ask, made)[i]);
        assert(whole[i] is Ok && whole[i]->Ok_0.contains(item));
        lemma_tracks(whole, item);
        let items = tracks(whole);
        let j = choose|j: int| 0 <= j < items.len() && items[j] == item;
        assert(is_exact_synced(items[j], wanted, model));
        assert(has_exact_synced(items, wanted, model));
    }
}

/// What is offered of a list does not change with tracks before it that cannot be offered.
proof fn lemma_fallback_after(
    a: Seq<SearchItem>,
    b: Seq<SearchItem>,
    wanted: Wanted,
    model: TextModel,
)
    requires
        fallback_of(a, wanted, model) is None,
    ensures
        fallback_of(a + b, wanted, model) == fallback_of(b, wanted, model),
{
    let ranks = ranking(b, wanted, model);
    let all = ranking(a + b, wanted, model);
    lemma_fallback(a, wanted, model);
    lemma_fallback(b, wanted, model);
    let n = a.len() as int;
    assert forall|j: int| 0 <= j < n implies #[trigger] all[j] is None by {
        assert(all[j] == ranking(a, wanted, model)[j]);
    }
    assert forall|j: int| 0 <= j < b.len() implies all[n + j] == #[trigger] ranks[j] by {
        assert((a + b)[n + j] == b[j]);
    }
    assert forall|j: int| n <= j < all.len() implies #[trigger] all[j] == ranks[j - n] by {
        assert((a + b)[j] == b[j - n]);
    }
    let out = fallback_of(b, wanted, model);
    match out {
        Some(response) => {
            let k = choose|k: int| #[trigger]
                is_best(ranks, k) && response == offered(b[k], ranks[k]->0.tier);
            assert(is_best(all, n + k));
            assert((a + b)[n + k] == b[k]);
        },
        None => {},
    }
    lemma_fallback_unique(a + b, wanted, model, out);
}

/// What a lookup that is left open comes to: with no exact answer, what the best of all tracks gives
/// that the searches found; with one, that answer, or in its place what the best of the tracks gives,
/// if that has synced lyrics, is near and fits no worse.
pub proof fn law_best_of_all<E>(
    wanted: Wanted,
    exact: Result<RawResponse, RequestErrorView<E>>,
    ask: Server<E>,
    model: TextModel,
    best: Option<RawResponse>,
)
    requires
        leaves_open(exact, model),
        ({
            let made = asked(begun(wanted, exact, model), ask, model, 0, 11);
            is_fallback(tracks(heard(ask, made)), wanted, model, best)
        }),
    ensures
        ({
            let result = end(wanted, exact, ask, model);
            &&& exact is Err ==> (best matches Some(found) ==> result == Ok::<
                RawResponse,
                RequestErrorView<E>,
            >(found))
            &&& exact is Err && best is None ==> result is Err
            &&& exact is Ok && best is None ==> result == exact
            &&& exact matches Ok(own) ==> (best matches Some(found) ==> result == (if response_synced(
                found,
                model,
            ) && tier(found.duration, wanted.duration) < 2 && tier(found.duration, wanted.duration)
                <= tier(own.duration, wanted.duration) {
                Ok::<RawResponse, RequestErrorView<E>>(found)
            } else {
                exact
            }))
        }),
{
    law_lookup(wanted, exact, ask, model);
    lemma_heard(wanted, exact, ask, model);
    let made = asked(begun(wanted, exact, model), ask, model, 0, 11);
    lemma_fallback_unique(tracks(heard(ask, made)), wanted, model, best);
    let answers = title_replies(wanted, ask, model);
    let last = ask(answers.len(), title_key(wanted.title, model), wanted.artist_name);
    let again = fallback_of(tracks(answers), wanted, model) is None && worth_normalizing(
        wanted.title,
        model,
    );
    if again {
        assert(answers.push(last).drop_last() =~= answers);
        match last {
            Ok(items) => {
                lemma_fallback_after(tracks(answers), items, wanted, model);
            },
            Err(_) => {},
        }
    }
}

/// If the searches find a track that would do, the lookup succeeds, whatever else fails.
pub proof fn law_found<E>(
    wanted: Wanted,
    exact: Result<RawResponse, RequestErrorView<E>>,
    ask: Server<E>,
    model: TextModel,
    i: int,
    item: SearchItem,
)
    requires
        leaves_open(exact, model),
        ({
            let made = asked(begun(wanted, exact, model), ask, model, 0, 11);
            &&& 0 <= i < made.len()
            &&& heard(ask, made)[i] matches Ok(items) && items.contains(item)
        }),
        acceptable(item, wanted, model),
    ensures
        end(wanted, exact, ask, model) is Ok,
{
    let made = asked(begun(wanted, exact, model), ask, model, 0, 11);
    let items = tracks(heard(ask, made));
    assert(heard(ask, made)[i] is Ok);
    lemma_tracks(heard(ask, made), item);
    let j = choose|j: int| 0 <= j < items.len() && items[j] == item;
    lemma_acceptable(item, wanted, model);
    assert(eligible(items[j], wanted, model));
    law_fallback_found(items, wanted, model);
    lemma_fallback(items, wanted, model);
    law_best_of_all(wanted, exact, ask, model, fallback_of(items, wanted, model));
}

/// The normalized title is searched for, last and by the artist as it is given, if none of the tracks
/// that the other searches found would do, if it is not empty and if it is not the title, without
/// white space at its ends and in any case of its ASCII letters.
pub proof fn law_normalized_searched<E>(
    wanted: Wanted,
    exact: Result<RawResponse, RequestErrorView<E>>,
    ask: Server<E>,
    model: TextModel,
)
    requires
        leaves_open(exact, model),
        title_key(wanted.title, model).len() > 0,
        ascii_lowered(trimmed(wanted.title)) != ascii_lowered(title_key(wanted.title, model)),
        ({
            let made = asked(begun(wanted, exact, model), ask, model, 0, 11);
            forall|i: int, item: SearchItem|
                #![trigger heard(ask, made)[i]->Ok_0.contains(item)]
                0 <= i < made.len() - 1 && heard(ask, made)[i] is Ok && heard(
                    ask,
                    made,
                )[i]->Ok_0.contains(item) ==> !acceptable(item, wanted, model)
        }),
    ensures
        ({
            let made = asked(begun(wanted, exact, model), ask, model, 0, 11);
            ||| made.last() == (title_key(wanted.title, model), wanted.artist_name)
            ||| heard(ask, made).last() matches Ok(items) && exists|item: SearchItem| #[trigger]
                items.contains(item) && acceptable(item, wanted, model)
        }),
{
    law_lookup(wanted, exact, ask, model);
    lemma_heard(wanted, exact, ask, model);
    law_searched_artists(wanted.artist_name);
    let made = asked(begun(wanted, exact, model), ask, model, 0, 11);
    let answers = title_replies(wanted, ask, model);
    let items = tracks(answers);
    if fallback_of(items, wanted, model) is Some {
        law_fallback_found(items, wanted, model);
        let j = choose|j: int| 0 <= j < items.len() && eligible(#[trigger] items[j], wanted, model);
        let item = items[j];
        lemma_acceptable(item, wanted, model);
        lemma_tracks(answers, item);
        assert(items.contains(item));
        let i = choose|i: int|
            0 <= i < answers.len() && #[trigger] answers[i] is Ok && answers[i]->Ok_0.contains(
                item,
            );
        assert(heard(ask, made) == answers);
        assert(heard(ask, made)[i]->Ok_0.contains(item));
        assert(i == made.len() - 1);
    }
}

/// A server that has a track that would do under the normalized title, and nothing that would do
/// under other titles, makes the lookup succeed, if the normalized title is not empty and is not the
/// title, without white space at its ends and in any case of its ASCII letters.
pub proof fn law_normalized_finds<E>(
    wanted: Wanted,
    exact: Result<RawResponse, RequestErrorView<E>>,
    ask: Server<E>,
    model: TextModel,
)
    requires
        leaves_open(exact, model),
        title_key(wanted.title, model).len() > 0,
        ascii_lowered(trimmed(wanted.title)) != ascii_lowered(title_key(wanted.title, model)),
        forall|n: nat, title: Seq<char>, artist: Seq<char>, item: SearchItem|
            #![trigger ask(n, title, artist)->Ok_0.contains(item)]
            title != title_key(wanted.title, model) && ask(n, title, artist) is Ok && ask(
                n,
                title,
                artist,
            )->Ok_0.contains(item) ==> !acceptable(item, wanted, model),
        forall|n: nat, artist: Seq<char>|
            #![trigger ask(n, title_key(wanted.title, model), artist)]
            ask(n, title_key(wanted.title, model), artist) matches Ok(items) && exists|
                item: SearchItem,
            | #[trigger]
                items.contains(item) && acceptable(item, wanted, model),
    ensures
        end(wanted, exact, ask, model) is Ok,
{
    let key = title_key(wanted.title, model);
    let made = asked(begun(wanted, exact, model), ask, model, 0, 11);
    if exists|i: int| 0 <= i < made.len() && (#[trigger] made[i]).0 == key {
        let i = choose|i: int| 0 <= i < made.len() && (#[trigger] made[i]).0 == key;
        let reply = ask(i as nat, key, made[i].1);
        assert(heard(ask, made)[i] == reply);
        let item = choose|item: SearchItem| #[trigger]
            reply->Ok_0.contains(item) && acceptable(item, wanted, model);
        law_found(wanted, exact, ask, model, i, item);
    } else {
        assert forall|i: int, item: SearchItem|
            #![trigger heard(ask, made)[i]->Ok_0.contains(item)]
            0 <= i < made.len() && heard(ask, made)[i] is Ok && heard(
                ask,
                made,
            )[i]->Ok_0.contains(item) implies !acceptable(item, wanted, model) by {
            assert(made[i].0 != key);
            assert(ask(i as nat, made[i].0, made[i].1)->Ok_0.contains(item));
        }
        law_begins(wanted, exact, ask, model);
        law_normalized_searched(wanted, exact, ask, model);
        let last = made.len() - 1;
        assert(made[last].0 != key);
        assert(heard(ask, made)[last] == heard(ask, made).last());
    }
}

/// Only the title itself and the title without its parts in parentheses are searched for, if the
/// normalized title is empty or is the title, without white space at its ends and in any case of its
/// ASCII letters; and after a search that found a track that would do.
pub proof fn law_normalized_spared<E>(
    wanted: Wanted,
    exact: Result<RawResponse, RequestErrorView<E>>,
    ask: Server<E>,
    model: TextModel,
    i: int,
    item: SearchItem,
    k: int,
)
    requires
        ({
            let made = asked(begun(wanted, exact, model), ask, model, 0, 11);
            &&& 0 <= k < made.len()
            &&& {
                ||| title_key(wanted.title, model).len() == 0
                ||| ascii_lowered(trimmed(wanted.title)) == ascii_lowered(
                    title_key(wanted.title, model),
                )
                ||| 0 <= i < k && (heard(ask, made)[i] matches Ok(items) && items.contains(item))
                    && acceptable(item, wanted, model)
            }
        }),
    ensures
        ({
            let made = asked(begun(wanted, exact, model), ask, model, 0, 11);
            made[k].0 == wanted.title || without_parentheses(wanted.title) == Some(made[k].0)
        }),
{
    law_lookup(wanted, exact, ask, model);
    law_searched_artists(wanted.artist_name);
    if !settles(exact, model) {
        lemma_heard(wanted, exact, ask, model);
        let made = asked(begun(wanted, exact, model), ask, model, 0, 11);
        let answers = title_replies(wanted, ask, model);
        if fallback_of(tracks(answers), wanted, model) is None && worth_normalizing(
            wanted.title,
            model,
        ) {
            if k == made.len() - 1 {
                assert(answers[i] == heard(ask, made)[i]);
                assert(answers[i] is Ok && answers[i]->Ok_0.contains(item));
                lemma_tracks(answers, item);
                let items = tracks(answers);
                let j = choose|j: int| 0 <= j < items.len() && items[j] == item;
                lemma_acceptable(item, wanted, model);
                assert(eligible(items[j], wanted, model));
                law_fallback_found(items, wanted, model);
            }
        }
    }
}

/// The last error of a list is one that no other comes after.
proof fn lemma_last<E>(earlier: Option<RequestErrorView<E>>, answers: Seq<Reply<E>>, i: int)
    requires
        0 <= i < answers.len(),
        answers[i] is Err,
        forall|k: int| i < k < answers.len() ==> #[trigger] answers[k] is Ok,
    ensures
        last_error(earlier, answers) == Some(answers[i]->Err_0),
    decreases answers.len(),
{
    if i < answers.len() - 1 {
        assert(answers[answers.len() - 1] is Ok);
        let before = answers.drop_last();
        assert forall|k: int| i < k < before.len() implies #[trigger] before[k] is Ok by {
            assert(answers[k] is Ok);
        }
        lemma_last(earlier, before, i);
    }
}

/// Without an error in a list the earlier one is the last.
proof fn lemma_none_last<E>(earlier: Option<RequestErrorView<E>>, answers: Seq<Reply<E>>)
    requires
        forall|k: int| 0 <= k < answers.len() ==> #[trigger] answers[k] is Ok,
    ensures
        last_error(earlier, answers) == earlier,
    decreases answers.len(),
{
    if answers.len() > 0 {
        assert(answers[answers.len() - 1] is Ok);
        let before = answers.drop_last();
        assert forall|k: int| 0 <= k < before.len() implies #[trigger] before[k] is Ok by {
            assert(answers[k] is Ok);
        }
        lemma_none_last(earlier, before);
    }
}

/// Where there is no exact answer and no search finds a track that would do, the lookup fails with
/// the error of the last search that failed; if none did, with the refusal of the request, if that was
/// refused, and else with the error that says that the track has no lyrics.
pub proof fn law_fails<E>(
    wanted: Wanted,
    exact: RequestErrorView<E>,
    ask: Server<E>,
    model: TextModel,
    i: int,
)
    requires
        leaves_open(Err::<RawResponse, RequestErrorView<E>>(exact), model),
        ({
            let made = asked(begun(wanted, Err(exact), model), ask, model, 0, 11);
            forall|k: int, item: SearchItem|
                #![trigger heard(ask, made)[k]->Ok_0.contains(item)]
                0 <= k < made.len() && heard(ask, made)[k] is Ok && heard(
                    ask,
                    made,
                )[k]->Ok_0.contains(item) ==> !acceptable(item, wanted, model)
        }),
    ensures
        ({
            let made = asked(begun(wanted, Err(exact), model), ask, model, 0, 11);
            let answers = heard(ask, made);
            let result = end(wanted, Err(exact), ask, model);
            &&& 0 <= i < answers.len() && answers[i] is Err && (forall|k: int|
                i < k < answers.len() ==> #[trigger] answers[k] is Ok) ==> result == Err::<
                RawResponse,
                RequestErrorView<E>,
            >(answers[i]->Err_0)
            &&& (forall|k: int| 0 <= k < answers.len() ==> #[trigger] answers[k] is Ok) ==> result
                == Err::<RawResponse, RequestErrorView<E>>(
                if exact is Api {
                    exact
                } else {
                    RequestErrorView::Response {
                        status_code: Some(404u16),
                        error: "NotFound"@,
                        message: "There is no lyrics for this track"@,
                    }
                },
            )
        }),
{
    let failed = Err::<RawResponse, RequestErrorView<E>>(exact);
    law_lookup(wanted, failed, ask, model);
    lemma_heard(wanted, failed, ask, model);
    let made = asked(begun(wanted, failed, model), ask, model, 0, 11);
    let answers = heard(ask, made);
    let items = tracks(answers);
    law_fallback_found(items, wanted, model);
    lemma_fallback(items, wanted, model);
    if fallback_of(items, wanted, model) is Some {
        let j = choose|j: int| 0 <= j < items.len() && eligible(#[trigger] items[j], wanted, model);
        let item = items[j];
        lemma_acceptable(item, wanted, model);
        lemma_tracks(answers, item);
        assert(items.contains(item));
        let k = choose|k: int|
            0 <= k < answers.len() && #[trigger] answers[k] is Ok && answers[k]->Ok_0.contains(
                item,
            );
        assert(heard(ask, made)[k]->Ok_0.contains(item));
    }
    law_best_of_all(wanted, failed, ask, model, fallback_of(items, wanted, model));
    let refusal = if exact is Api {
        Some(exact)
    } else {
        None
    };
    if 0 <= i < answers.len() && answers[i] is Err && (forall|k: int|
        i < k < answers.len() ==> #[trigger] answers[k] is Ok) {
        lemma_last(refusal, answers, i);
    }
    if forall|k: int| 0 <= k < answers.len() ==> #[trigger] answers[k] is Ok {
        lemma_none_last(refusal, answers);
    }
}

} // verus!
