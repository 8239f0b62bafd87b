//! What holds of the track that is offered in place of the exact one.

use crate::duration::{law_tiers, tier, MeasuredDuration, Seconds};
use crate::fallback::{
    artist_key, chosen, eligible, is_best, is_fallback, item_synced, offered, present, rank_of,
    ranking, response_synced, same_artist, synced, title_key, title_place, Rank, Wanted,
};
use crate::get::{tells_something, RawResponse};
use crate::lookup::{fallback_of, lemma_fallback_unique};
use crate::names::{law_normalized, separators_unified, without_parentheses};
use crate::search::SearchItem;
use crate::text::{ascii_lowered, is_name_character, opt_text};
use crate::tools::{LyricsPresence, TextModel};
use vstd::prelude::*;

verus! {

/// Where there is a rank, one is the best.
proof fn lemma_best_exists(ranks: Seq<Option<Rank>>) -> (k: int)
    requires
        exists|j: int| 0 <= j < ranks.len() && #[trigger] ranks[j] is Some,
    ensures
        is_best(ranks, k),
    decreases ranks.len(),
{
    let before = ranks.drop_last();
    let last = ranks.len() - 1;
    if exists|j: int| 0 <= j < before.len() && #[trigger] before[j] is Some {
        let b = lemma_best_exists(before);
        assert(forall|j: int| 0 <= j < before.len() ==> ranks[j] == before[j]);
        if ranks[last] is Some && ranks[last]->0.before(ranks[b]->0) {
            assert forall|j: int| 0 <= j < ranks.len() && #[trigger] ranks[j] is Some implies {
                &&& !ranks[j]->0.before(ranks[last]->0)
                &&& j < last ==> ranks[last]->0.before(ranks[j]->0)
            } by {
                if j < last {
                    assert(before[j] is Some);
                    assert(!before[j]->0.before(before[b]->0));
                }
            }
            last
        } else {
            assert forall|j: int| 0 <= j < ranks.len() && #[trigger] ranks[j] is Some implies {
                &&& !ranks[j]->0.before(ranks[b]->0)
                &&& j < b ==> ranks[b]->0.before(ranks[j]->0)
            } by {
                if j < last {
                    assert(before[j] is Some);
                }
            }
            b
        }
    } else {
        let j = choose|j: int| 0 <= j < ranks.len() && #[trigger] ranks[j] is Some;
        if j < last {
            assert(before[j] is Some);
        }
        assert forall|i: int| 0 <= i < last implies #[trigger] ranks[i] is None by {
            assert(before[i] is None);
        }
        last
    }
}

/// What is offered comes from the best of the tracks.
pub proof fn lemma_fallback(items: Seq<SearchItem>, wanted: Wanted, model: TextModel)
    ensures
        is_fallback(items, wanted, model, fallback_of(items, wanted, model)),
{
    let ranks = ranking(items, wanted, model);
    if exists|j: int| 0 <= j < ranks.len() && #[trigger] ranks[j] is Some {
        let k = lemma_best_exists(ranks);
        lemma_fallback_unique(
            items,
            wanted,
            model,
            Some(offered(items[k], ranks[k]->0.tier)),
        );
    } else {
        lemma_fallback_unique(items, wanted, model, None);
    }
}

/// Whether one of the tracks can be offered.
pub open spec fn any_eligible(items: Seq<SearchItem>, wanted: Wanted, model: TextModel) -> bool {
    exists|j: int| 0 <= j < items.len() && eligible(#[trigger] items[j], wanted, model)
}

/// A fallback is found if and only if one of the tracks can be offered.
pub proof fn law_fallback_found(items: Seq<SearchItem>, wanted: Wanted, model: TextModel)
    ensures
        fallback_of(items, wanted, model) is Some <==> any_eligible(items, wanted, model),
{
    let ranks = ranking(items, wanted, model);
    lemma_fallback(items, wanted, model);
    if fallback_of(items, wanted, model) is Some {
        let k = choose|k: int| #[trigger] is_best(ranks, k);
        assert(eligible(items[k], wanted, model));
    } else {
        assert forall|j: int| 0 <= j < items.len() implies !eligible(
            #[trigger] items[j],
            wanted,
            model,
        ) by {
            assert(ranks[j] is None);
        }
    }
}

/// However its title and artist are spelled, a track with plain lyrics is found if its names are
/// prepared to the same as the wanted ones, and these hold a letter or digit.
pub proof fn law_alike_found(
    items: Seq<SearchItem>,
    wanted: Wanted,
    model: TextModel,
    j: int,
    name: Seq<char>,
    artist: Seq<char>,
)
    requires
        0 <= j < items.len(),
        opt_text(items[j].name) == Some(name),
        opt_text(items[j].artist_name) == Some(artist),
        (model.prepared)(name) == (model.prepared)(wanted.title),
        (model.prepared)(separators_unified(artist)) == (model.prepared)(
            separators_unified(wanted.artist_name),
        ),
        exists|i: int|
            0 <= i < (model.prepared)(name).len() && is_name_character(
                #[trigger] (model.prepared)(name)[i],
            ),
        exists|i: int|
            0 <= i < (model.prepared)(separators_unified(artist)).len() && is_name_character(
                #[trigger] (model.prepared)(separators_unified(artist))[i],
            ),
        present(items[j].plain_lyrics),
    ensures
        fallback_of(items, wanted, model) is Some,
{
    law_normalized((model.prepared)(name));
    law_normalized((model.prepared)(separators_unified(artist)));
    assert(eligible(items[j], wanted, model));
    law_fallback_found(items, wanted, model);
}

/// What is offered is one of the tracks, with the wanted artist and one of the wanted titles, and
/// tells something of it. A track of another duration gives its plain lyrics and nothing else.
pub proof fn law_fallback_fits(items: Seq<SearchItem>, wanted: Wanted, model: TextModel)
    requires
        fallback_of(items, wanted, model) is Some,
    ensures
        ({
            let out = fallback_of(items, wanted, model)->0;
            let fit = tier(out.duration, wanted.duration);
            &&& exists|k: int|
                0 <= k < items.len() && eligible(items[k], wanted, model) && out == #[trigger] offered(
                    items[k],
                    fit,
                )
            &&& title_place(opt_text(out.name), wanted.title, model) is Some
            &&& out.name matches Some(name) && (title_key(name@, model) == title_key(
                wanted.title,
                model,
            ) || (without_parentheses(wanted.title) matches Some(stripped) && title_key(
                name@,
                model,
            ) == title_key(stripped, model)))
            &&& same_artist(opt_text(out.artist_name), wanted.artist_name, model)
            &&& tells_something(out)
            &&& fit == 2 ==> {
                &&& present(out.plain_lyrics)
                &&& out.synced_lyrics is None
                &&& out.lyricsfile is None
                &&& !out.instrumental
            }
        }),
{
    let ranks = ranking(items, wanted, model);
    let out = fallback_of(items, wanted, model)->0;
    lemma_fallback(items, wanted, model);
    let k = choose|k: int| #[trigger]
        is_best(ranks, k) && out == offered(items[k], ranks[k]->0.tier);
    assert(ranks[k] == rank_of(items[k], wanted, model));
    assert(out == offered(items[k], tier(out.duration, wanted.duration)));
}

/// No track that can be offered fits better in duration than the one that is offered; and of those
/// that fit as well and are near, none has synced lyrics if the one that is offered has not.
pub proof fn law_fallback_best(items: Seq<SearchItem>, wanted: Wanted, model: TextModel, j: int)
    requires
        0 <= j < items.len(),
        eligible(items[j], wanted, model),
    ensures
        fallback_of(items, wanted, model) is Some,
        ({
            let out = fallback_of(items, wanted, model)->0;
            let fit = tier(out.duration, wanted.duration);
            let other = tier(items[j].duration, wanted.duration);
            &&& fit <= other
            &&& fit == other && fit < 2 && item_synced(items[j], model) ==> response_synced(
                out,
                model,
            )
        }),
{
    let ranks = ranking(items, wanted, model);
    law_fallback_found(items, wanted, model);
    lemma_fallback(items, wanted, model);
    let out = fallback_of(items, wanted, model)->0;
    let k = choose|k: int| #[trigger]
        is_best(ranks, k) && out == offered(items[k], ranks[k]->0.tier);
    assert(ranks[k] == rank_of(items[k], wanted, model));
    assert(ranks[j] == rank_of(items[j], wanted, model));
    assert(ranks[j] is Some);
}

/// Of the exact answer and the fallback one is chosen if there is one. The exact answer gives way
/// only to a fallback with synced lyrics whose duration is near and fits as well.
pub proof fn law_chosen(
    exact: Option<RawResponse>,
    fallback: Option<RawResponse>,
    wanted: Seconds,
    model: TextModel,
)
    ensures
        chosen(exact, fallback, wanted, model) is Some <==> exact is Some || fallback is Some,
        chosen(exact, fallback, wanted, model) == exact || chosen(exact, fallback, wanted, model)
            == fallback,
        exact is Some && chosen(exact, fallback, wanted, model) != exact ==> {
            &&& response_synced(fallback->0, model)
            &&& tier(fallback->0.duration, wanted) < 2
            &&& tier(fallback->0.duration, wanted) <= tier(exact->0.duration, wanted)
        },
{
}

/// Lyrics count as synced if they were sent as such and are not empty, or if the lyricsfile is found
/// to hold synced ones; be it of a track that was found or of the exact one.
pub proof fn law_synced(item: SearchItem, response: RawResponse, model: TextModel)
    ensures
        item_synced(item, model) <==> {
            ||| item.synced_lyrics matches Some(lyrics) && lyrics@.len() > 0
            ||| item.lyricsfile matches Some(file) && (model.presence)(file@) == Some(
                LyricsPresence { has_synced_lyrics: true },
            )
        },
        response_synced(response, model) <==> {
            ||| response.synced_lyrics matches Some(lyrics) && lyrics@.len() > 0
            ||| response.lyricsfile matches Some(file) && (model.presence)(file@) == Some(
                LyricsPresence { has_synced_lyrics: true },
            )
        },
{
}

/// Whether lyrics count as synced, said of the texts themselves.
pub proof fn law_synced_texts(
    lyrics: Option<Seq<char>>,
    file: Option<Seq<char>>,
    presence: spec_fn(Seq<char>) -> Option<LyricsPresence>,
)
    ensures
        synced(lyrics, file, presence) <==> {
            ||| lyrics matches Some(text) && text.len() > 0
            ||| file matches Some(text) && presence(text) == Some(
                LyricsPresence { has_synced_lyrics: true },
            )
        },
{
}

/// Whether a track has the wanted artist and one of the wanted titles, and tells enough of itself.
pub open spec fn acceptable(item: SearchItem, wanted: Wanted, model: TextModel) -> bool {
    &&& title_key(wanted.title, model).len() > 0
    &&& artist_key(wanted.artist_name, model).len() > 0
    &&& item.name matches Some(name) && (title_key(name@, model) == title_key(wanted.title, model)
        || (without_parentheses(wanted.title) matches Some(stripped) && title_key(name@, model)
        == title_key(stripped, model)))
    &&& item.artist_name matches Some(artist) && artist_key(artist@, model) == artist_key(
        wanted.artist_name,
        model,
    )
    &&& {
        ||| item.plain_lyrics matches Some(text) && text@.len() > 0
        ||| tier(item.duration, wanted.duration) < 2 && {
            ||| item.synced_lyrics matches Some(text) && text@.len() > 0
            ||| item.lyricsfile matches Some(text) && text@.len() > 0
            ||| item.instrumental
        }
    }
}

/// How far a track's duration is from the wanted one, as bits; of one that has none, the largest
/// number.
pub open spec fn distance_bits(duration: Option<MeasuredDuration>) -> u64 {
    match duration {
        Some(measured) => measured.distance.bits,
        None => 0x7fef_ffff_ffff_ffff,
    }
}

/// A track that can be offered is one that is acceptable.
pub proof fn lemma_acceptable(item: SearchItem, wanted: Wanted, model: TextModel)
    ensures
        acceptable(item, wanted, model) == eligible(item, wanted, model),
        acceptable(item, wanted, model) == (rank_of(item, wanted, model) is Some),
{
    match item.duration {
        Some(duration) => law_tiers(duration, wanted.duration),
        None => {},
    }
}

/// If nothing is offered, no track would do: each of them is without the wanted artist or the wanted
/// title, whole or without its parts in parentheses, or without lyrics that are of use for a track
/// of its duration; or the wanted names hold no letter or digit.
pub proof fn law_nothing_offered(
    items: Seq<SearchItem>,
    wanted: Wanted,
    model: TextModel,
    j: int,
)
    requires
        is_fallback(items, wanted, model, None),
        0 <= j < items.len(),
    ensures
        ({
            let item = items[j];
            ||| title_key(wanted.title, model).len() == 0
            ||| artist_key(wanted.artist_name, model).len() == 0
            ||| item.name is None
            ||| item.name matches Some(name) && title_key(name@, model) != title_key(
                wanted.title,
                model,
            ) && !(without_parentheses(wanted.title) matches Some(stripped) && title_key(
                name@,
                model,
            ) == title_key(stripped, model))
            ||| item.artist_name is None
            ||| item.artist_name matches Some(artist) && artist_key(artist@, model) != artist_key(
                wanted.artist_name,
                model,
            )
            ||| !(item.plain_lyrics matches Some(text) && text@.len() > 0) && (tier(
                item.duration,
                wanted.duration,
            ) == 2 || !(item.synced_lyrics matches Some(text) && text@.len() > 0) && !(
            item.lyricsfile matches Some(text) && text@.len() > 0) && !item.instrumental)
        }),
{
    assert(ranking(items, wanted, model)[j] == rank_of(items[j], wanted, model));
    lemma_acceptable(items[j], wanted, model);
}

/// What is offered comes from one of the tracks, which would do, and no track comes before it that
/// would do as well.
///
/// The track has the wanted artist and the wanted title, whole or without its parts in parentheses.
/// What it tells is passed on, but from a track of another duration only the plain lyrics, which it
/// must have then. Of two tracks the one of the better duration comes first; then the one with synced
/// lyrics; then the one with the whole title; then the one of the wanted album, in any case; then the
/// nearer one; and then the one that was found first.
pub proof fn law_offered(
    items: Seq<SearchItem>,
    wanted: Wanted,
    model: TextModel,
    out: RawResponse,
) -> (k: int)
    requires
        is_fallback(items, wanted, model, Some(out)),
    ensures
        0 <= k < items.len(),
        title_key(wanted.title, model).len() > 0,
        artist_key(wanted.artist_name, model).len() > 0,
        out.name == items[k].name,
        out.artist_name == items[k].artist_name,
        out.album_name == items[k].album_name,
        out.duration == items[k].duration,
        out.plain_lyrics == items[k].plain_lyrics,
        out.lang is None && out.isrc is None && out.spotify_id is None && out.release_date is None,
        out.name matches Some(name) && (title_key(name@, model) == title_key(wanted.title, model)
            || (without_parentheses(wanted.title) matches Some(stripped) && title_key(name@, model)
            == title_key(stripped, model))),
        out.artist_name matches Some(artist) && artist_key(artist@, model) == artist_key(
            wanted.artist_name,
            model,
        ),
        tier(out.duration, wanted.duration) < 2 ==> {
            &&& out.synced_lyrics == items[k].synced_lyrics
            &&& out.lyricsfile == items[k].lyricsfile
            &&& out.instrumental == items[k].instrumental
        },
        tier(out.duration, wanted.duration) >= 2 ==> {
            &&& out.synced_lyrics is None
            &&& out.lyricsfile is None
            &&& !out.instrumental
        },
        ({
            ||| out.plain_lyrics matches Some(text) && text@.len() > 0
            ||| out.synced_lyrics matches Some(text) && text@.len() > 0
            ||| out.lyricsfile matches Some(text) && text@.len() > 0
            ||| out.instrumental
        }),
        forall|j: int|
            0 <= j < items.len() && acceptable(#[trigger] items[j], wanted, model) ==> {
                let a = items[k];
                let b = items[j];
                let s = tier(a.duration, wanted.duration);
                let t = tier(b.duration, wanted.duration);
                let whole_a = a.name matches Some(name) && title_key(name@, model) == title_key(
                    wanted.title,
                    model,
                );
                let whole_b = b.name matches Some(name) && title_key(name@, model) == title_key(
                    wanted.title,
                    model,
                );
                let album_a = a.album_name matches Some(name) && ascii_lowered(name@)
                    == ascii_lowered(wanted.album_name);
                let album_b = b.album_name matches Some(name) && ascii_lowered(name@)
                    == ascii_lowered(wanted.album_name);
                let d = distance_bits(a.duration);
                let e = distance_bits(b.duration);
                ||| s < t
                ||| s == t && item_synced(a, model) && !item_synced(b, model)
                ||| s == t && item_synced(a, model) == item_synced(b, model) && {
                    ||| whole_a && !whole_b
                    ||| whole_a == whole_b && album_a && !album_b
                    ||| whole_a == whole_b && album_a == album_b && (d < e || (d == e && k <= j))
                }
            },
{
    let ranks = ranking(items, wanted, model);
    let k = choose|k: int| #[trigger]
        is_best(ranks, k) && out == offered(items[k], ranks[k]->0.tier);
    assert(ranks[k] == rank_of(items[k], wanted, model));
    lemma_acceptable(items[k], wanted, model);
    match items[k].duration {
        Some(duration) => law_tiers(duration, wanted.duration),
        None => {},
    }
    assert forall|j: int|
        0 <= j < items.len() && acceptable(#[trigger] items[j], wanted, model) implies {
        &&& ranks[j] is Some
        &&& ranks[j] == rank_of(items[j], wanted, model)
        &&& !ranks[j]->0.before(ranks[k]->0)
        &&& j < k ==> ranks[k]->0.before(ranks[j]->0)
    } by {
        lemma_acceptable(items[j], wanted, model);
        assert(ranks[j] == rank_of(items[j], wanted, model));
    }
    k
}

/// The exact answer gives way to a fallback that has synced lyrics and a duration that is near and
/// fits no worse, and to no other. Where there is only one of the two it is chosen.
pub proof fn law_gives_way(
    own: RawResponse,
    other: RawResponse,
    fallback: Option<RawResponse>,
    wanted: Seconds,
    model: TextModel,
)
    ensures
        response_synced(other, model) && tier(other.duration, wanted) < 2 && tier(
            other.duration,
            wanted,
        ) <= tier(own.duration, wanted) ==> chosen(Some(own), Some(other), wanted, model) == Some(
            other,
        ),
        !response_synced(other, model) ==> chosen(Some(own), Some(other), wanted, model) == Some(
            own,
        ),
        tier(other.duration, wanted) >= 2 ==> chosen(Some(own), Some(other), wanted, model) == Some(
            own,
        ),
        tier(other.duration, wanted) > tier(own.duration, wanted) ==> chosen(
            Some(own),
            Some(other),
            wanted,
            model,
        ) == Some(own),
        chosen(None, fallback, wanted, model) == fallback,
        chosen(Some(own), None, wanted, model) == Some(own),
{
    match other.duration {
        Some(duration) => law_tiers(duration, wanted),
        None => {},
    }
}

/// A track whose duration is not known is as far from the wanted one as the largest finite number, of
/// which only infinity and what is no number are farther; any other as far as was measured.
pub proof fn law_distance(
    item: SearchItem,
    wanted: Wanted,
    model: TextModel,
    duration: MeasuredDuration,
)
    ensures
        rank_of(item, wanted, model) matches Some(rank) ==> {
            &&& item.duration is None ==> rank.distance == 0x7fef_ffff_ffff_ffff
            &&& item.duration matches Some(measured) ==> rank.distance == measured.distance.bits
        },
        distance_bits(None) == 0x7fef_ffff_ffff_ffff,
        distance_bits(Some(duration)) == duration.distance.bits,
{
}

} // verus!
