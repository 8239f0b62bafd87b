//! Choosing among the tracks that a search found.

use crate::duration::{duration_tier, tier, Seconds, FARTHEST};
use crate::get::RawResponse;
use crate::names::{
    normalize_artist, normalize_name, normalized, separators_unified, title_without_parentheses,
    without_parentheses,
};
use crate::search::SearchItem;
use crate::text::{as_text, ascii_lowered, opt_text, text_of};
use crate::tools::{detects, total, LyricsPresence, TextModel, TextTools};
use vstd::prelude::*;

verus! {

/// Whether lyrics have time stamps: those that were sent as such, if they are not empty, or those
/// in the lyricsfile.
pub open spec fn synced(
    synced_lyrics: Option<Seq<char>>,
    lyricsfile: Option<Seq<char>>,
    presence: spec_fn(Seq<char>) -> Option<LyricsPresence>,
) -> bool {
    ||| synced_lyrics matches Some(text) && text.len() > 0
    ||| lyricsfile matches Some(text) && presence(text) matches Some(found)
        && found.has_synced_lyrics
}

/// Whether a text is there and not empty.
pub open spec fn present(s: Option<String>) -> bool {
    s matches Some(text) && text@.len() > 0
}

/// Whether a track that was found has lyrics with time stamps.
pub open spec fn item_synced(item: SearchItem, model: TextModel) -> bool {
    synced(opt_text(item.synced_lyrics), opt_text(item.lyricsfile), model.presence)
}

/// Whether an answer has lyrics with time stamps.
pub open spec fn response_synced(response: RawResponse, model: TextModel) -> bool {
    synced(opt_text(response.synced_lyrics), opt_text(response.lyricsfile), model.presence)
}

/// The form in which titles are compared.
pub open spec fn title_key(title: Seq<char>, model: TextModel) -> Seq<char> {
    normalized((model.prepared)(title))
}

/// The form in which artists are compared.
pub open spec fn artist_key(artist: Seq<char>, model: TextModel) -> Seq<char> {
    normalized((model.prepared)(separators_unified(artist)))
}

/// Where a title stands among those that are looked for: 0 if it is the whole title, 1 if it is
/// the title without its parts in parentheses.
pub open spec fn title_place(name: Option<Seq<char>>, title: Seq<char>, model: TextModel) -> Option<
    u8,
> {
    match name {
        Some(found) => if title_key(found, model) == title_key(title, model) {
            Some(0)
        } else if without_parentheses(title) matches Some(stripped) && title_key(found, model)
            == title_key(stripped, model) {
            Some(1)
        } else {
            None
        },
        None => None,
    }
}

/// Whether a track is by the artist that is looked for.
pub open spec fn same_artist(name: Option<Seq<char>>, artist: Seq<char>, model: TextModel) -> bool {
    name matches Some(found) && artist_key(found, model) == artist_key(artist, model)
}

/// What a track that was found is ranked by, the first field first; the smaller comes before the
/// greater, and `false` before `true`.
#[derive(Clone, Copy, Debug, PartialEq, Eq, Structural)]
pub struct Rank {
    pub tier: u8,
    pub unsynced: bool,
    pub title_place: u8,
    pub other_album: bool,
    pub distance: u64,
}

impl Rank {
    /// Whether this rank is better than another.
    pub open spec fn before(self, other: Rank) -> bool {
        ||| self.tier < other.tier
        ||| self.tier == other.tier && {
            ||| !self.unsynced && other.unsynced
            ||| self.unsynced == other.unsynced && {
                ||| self.title_place < other.title_place
                ||| self.title_place == other.title_place && {
                    ||| !self.other_album && other.other_album
                    ||| self.other_album == other.other_album && self.distance < other.distance
                }
            }
        }
    }

    /// Whether this rank is better than another.
    fn comes_before(&self, other: &Rank) -> (out: bool)
        ensures
            out == self.before(*other),
    {
        if self.tier != other.tier {
            self.tier < other.tier
        } else if self.unsynced != other.unsynced {
            other.unsynced
        } else if self.title_place != other.title_place {
            self.title_place < other.title_place
        } else if self.other_album != other.other_album {
            other.other_album
        } else {
            self.distance < other.distance
        }
    }
}

/// The track that lyrics are looked for.
pub struct Wanted {
    pub title: Seq<char>,
    pub album_name: Seq<char>,
    pub artist_name: Seq<char>,
    pub duration: Seconds,
}

/// Whether a track that was found can be offered: title and artist are those looked for, it has
/// lyrics of some kind or is marked as instrumental, and, if its duration is another, it has plain
/// lyrics. Nothing is offered for a title or an artist that has no letter or digit.
pub open spec fn eligible(item: SearchItem, wanted: Wanted, model: TextModel) -> bool {
    &&& title_key(wanted.title, model).len() > 0
    &&& artist_key(wanted.artist_name, model).len() > 0
    &&& title_place(opt_text(item.name), wanted.title, model) is Some
    &&& same_artist(opt_text(item.artist_name), wanted.artist_name, model)
    &&& present(item.plain_lyrics) || present(item.synced_lyrics) || present(item.lyricsfile)
        || item.instrumental
    &&& tier(item.duration, wanted.duration) == 2 ==> present(item.plain_lyrics)
}

/// The rank of a track that was found, if it can be offered.
pub open spec fn rank_of(item: SearchItem, wanted: Wanted, model: TextModel) -> Option<Rank> {
    if eligible(item, wanted, model) {
        Some(
            Rank {
                tier: tier(item.duration, wanted.duration),
                unsynced: !item_synced(item, model),
                title_place: title_place(opt_text(item.name), wanted.title, model)->0,
                other_album: !(opt_text(item.album_name) matches Some(album) && ascii_lowered(album)
                    == ascii_lowered(wanted.album_name)),
                distance: match item.duration {
                    Some(duration) => duration.distance.bits,
                    None => FARTHEST,
                },
            },
        )
    } else {
        None
    }
}

/// The ranks of all tracks that were found.
pub open spec fn ranking(items: Seq<SearchItem>, wanted: Wanted, model: TextModel) -> Seq<
    Option<Rank>,
> {
    items.map_values(|item: SearchItem| rank_of(item, wanted, model))
}

/// Whether the best rank stands at `k`, and at no place before it.
pub open spec fn is_best(ranks: Seq<Option<Rank>>, k: int) -> bool {
    &&& 0 <= k < ranks.len()
    &&& ranks[k] is Some
    &&& forall|j: int|
        0 <= j < ranks.len() && #[trigger] ranks[j] is Some ==> !ranks[j]->0.before(ranks[k]->0)
    &&& forall|j: int| 0 <= j < k && #[trigger] ranks[j] is Some ==> ranks[k]->0.before(ranks[j]->0)
}

/// The answer that a track of the given tier gives. One of another duration gives its plain lyrics
/// alone.
pub open spec fn offered(item: SearchItem, tier: u8) -> RawResponse {
    RawResponse {
        plain_lyrics: item.plain_lyrics,
        synced_lyrics: if tier == 2 { None } else { item.synced_lyrics },
        lyricsfile: if tier == 2 { None } else { item.lyricsfile },
        instrumental: tier != 2 && item.instrumental,
        lang: None,
        isrc: None,
        spotify_id: None,
        name: item.name,
        album_name: item.album_name,
        artist_name: item.artist_name,
        release_date: None,
        duration: item.duration,
    }
}

/// Whether `out` is what the best of the tracks gives; nothing if none can be offered.
pub open spec fn is_fallback(
    items: Seq<SearchItem>,
    wanted: Wanted,
    model: TextModel,
    out: Option<RawResponse>,
) -> bool {
    let ranks = ranking(items, wanted, model);
    match out {
        Some(response) => exists|k: int| #[trigger]
            is_best(ranks, k) && response == offered(items[k], ranks[k]->0.tier),
        None => forall|j: int| 0 <= j < ranks.len() ==> #[trigger] ranks[j] is None,
    }
}

/// The better of the exact answer and the fallback. The fallback replaces the exact answer only if
/// it has synced lyrics and its duration is near and fits no worse.
pub open spec fn chosen(
    exact: Option<RawResponse>,
    fallback: Option<RawResponse>,
    wanted: Seconds,
    model: TextModel,
) -> Option<RawResponse> {
    match (exact, fallback) {
        (Some(own), Some(other)) => if response_synced(other, model) && tier(other.duration, wanted)
            <= 1 && tier(other.duration, wanted) <= tier(own.duration, wanted) {
            fallback
        } else {
            exact
        },
        (Some(own), None) => exact,
        (None, _) => fallback,
    }
}

/// Whether a text is there and not empty.
fn is_present(s: &Option<String>) -> (out: bool)
    ensures
        out == present(*s),
{
    match s {
        Some(text) => !text.as_str().is_empty(),
        None => false,
    }
}

/// Whether lyrics have time stamps, be it those that were sent as such or those in the lyricsfile,
/// which `lyrics_presence` reads.
pub fn has_synced_lyrics<L: Fn(&str) -> Option<LyricsPresence>>(
    synced_lyrics: Option<&str>,
    lyricsfile: Option<&str>,
    lyrics_presence: &L,
) -> (out: bool)
    requires
        total(*lyrics_presence),
    ensures
        forall|presence: spec_fn(Seq<char>) -> Option<LyricsPresence>| #[trigger]
            detects(*lyrics_presence, presence) ==> out == synced(
                text_of(synced_lyrics),
                text_of(lyricsfile),
                presence,
            ),
        text_of(synced_lyrics) matches Some(text) && text.len() > 0 ==> out,
        !(text_of(synced_lyrics) matches Some(text) && text.len() > 0) ==> match lyricsfile {
            Some(text) => exists|found: Option<LyricsPresence>| #[trigger]
                call_ensures(*lyrics_presence, (text,), found) && out == (found matches Some(known)
                    && known.has_synced_lyrics),
            None => !out,
        },
{
    if let Some(text) = synced_lyrics {
        if !text.is_empty() {
            return true;
        }
    }
    match lyricsfile {
        Some(text) => match lyrics_presence(text) {
            Some(found) => found.has_synced_lyrics,
            None => false,
        },
        None => false,
    }
}

/// What the tracks that were found are compared with.
struct Keys {
    title: String,
    stripped_title: Option<String>,
    artist: String,
}

impl Keys {
    /// These are the keys of the wanted track.
    spec fn describe(self, wanted: Wanted, model: TextModel) -> bool {
        &&& self.title@ == title_key(wanted.title, model)
        &&& self.artist@ == artist_key(wanted.artist_name, model)
        &&& opt_text(self.stripped_title) == match without_parentheses(wanted.title) {
            Some(stripped) => Some(title_key(stripped, model)),
            None => None,
        }
    }
}

/// The rank of a track that was found, if it can be offered.
fn rank<P: Fn(&str) -> String, L: Fn(&str) -> Option<LyricsPresence>>(
    item: &SearchItem,
    keys: &Keys,
    album_name: &str,
    duration: Seconds,
    tools: &TextTools<P, L>,
) -> (out: Option<Rank>)
    requires
        tools.usable(),
        keys.title@.len() > 0,
        keys.artist@.len() > 0,
    ensures
        forall|wanted: Wanted, model: TextModel| #[trigger]
            tools.follows(model) && #[trigger] keys.describe(wanted, model) && wanted.album_name
                == album_name@ && wanted.duration == duration ==> out == rank_of(
                *item,
                wanted,
                model,
            ),
        out matches Some(found) ==> found.tier == tier(item.duration, duration),
{
    let title_place: u8 = match &item.name {
        Some(name) => {
            let found = normalize_name(name.as_str(), &tools.prepare_input);
            if found == keys.title {
                0
            } else {
                match &keys.stripped_title {
                    Some(stripped) => if found == *stripped {
                        1
                    } else {
                        return None;
                    },
                    None => {
                        return None;
                    },
                }
            }
        },
        None => {
            return None;
        },
    };
    match &item.artist_name {
        Some(name) => {
            let found = normalize_artist(name.as_str(), &tools.prepare_input);
            if !(found == keys.artist) {
                return None;
            }
        },
        None => {
            return None;
        },
    }
    let has_plain = is_present(&item.plain_lyrics);
    if !(has_plain || is_present(&item.synced_lyrics) || is_present(&item.lyricsfile)
        || item.instrumental) {
        return None;
    }
    let fit: u8 = duration_tier(item.duration, duration);
    if fit == 2 && !has_plain {
        return None;
    }
    let has_synced = has_synced_lyrics(
        as_text(&item.synced_lyrics),
        as_text(&item.lyricsfile),
        &tools.lyrics_presence,
    );
    let same_album = match &item.album_name {
        Some(album) => album.as_str().eq_ignore_ascii_case(album_name),
        None => false,
    };
    let distance: u64 = match item.duration {
        Some(measured) => measured.distance.bits,
        None => FARTHEST,
    };
    Some(
        Rank {
            tier: fit,
            unsynced: !has_synced,
            title_place,
            other_album: !same_album,
            distance,
        },
    )
}

/// The answer that a track of the given tier gives.
fn offer(item: SearchItem, fit: u8) -> (out: RawResponse)
    ensures
        out == offered(item, fit),
{
    let far = fit == 2;
    RawResponse {
        plain_lyrics: item.plain_lyrics,
        synced_lyrics: if far { None } else { item.synced_lyrics },
        lyricsfile: if far { None } else { item.lyricsfile },
        instrumental: if far { false } else { item.instrumental },
        lang: None,
        isrc: None,
        spotify_id: None,
        name: item.name,
        album_name: item.album_name,
        artist_name: item.artist_name,
        release_date: None,
        duration: item.duration,
    }
}

/// What the best of the tracks that were found gives, in the order of `Rank`; of equals the first.
/// `duration` is the wanted one, in whole seconds.
pub fn select_fallback<P: Fn(&str) -> String, L: Fn(&str) -> Option<LyricsPresence>>(
    candidates: Vec<SearchItem>,
    title: &str,
    album_name: &str,
    artist_name: &str,
    duration: Seconds,
    tools: &TextTools<P, L>,
) -> (out: Option<RawResponse>)
    requires
        tools.usable(),
    ensures
        forall|model: TextModel| #[trigger]
            tools.follows(model) ==> is_fallback(
                candidates@,
                (Wanted {
                    title: title@,
                    album_name: album_name@,
                    artist_name: artist_name@,
                    duration,
                }),
                model,
                out,
            ),
        out matches Some(response) ==> exists|k: int|
            0 <= k < candidates@.len() && response == offered(
                #[trigger] candidates@[k],
                tier(candidates@[k].duration, duration),
            ),
{
    let ghost wanted = Wanted {
        title: title@,
        album_name: album_name@,
        artist_name: artist_name@,
        duration,
    };
    let artist = normalize_artist(artist_name, &tools.prepare_input);
    let title_whole = normalize_name(title, &tools.prepare_input);
    let stripped_title = match title_without_parentheses(title) {
        Some(stripped) => Some(normalize_name(stripped.as_str(), &tools.prepare_input)),
        None => None,
    };
    if title_whole.as_str().is_empty() || artist.as_str().is_empty() {
        return None;
    }
    let keys = Keys { title: title_whole, stripped_title, artist };
    let ghost mut ranks: Seq<Option<Rank>> = Seq::empty();
    let mut best: usize = 0;
    let mut best_rank: Option<Rank> = None;
    let mut i: usize = 0;
    while i < candidates.len()
        invariant
            tools.usable(),
            keys.title@.len() > 0,
            keys.artist@.len() > 0,
            wanted.album_name == album_name@,
            wanted.duration == duration,
            forall|model: TextModel| #[trigger]
                tools.follows(model) ==> keys.describe(wanted, model),
            i <= candidates@.len(),
            ranks.len() == i,
            forall|model: TextModel, j: int| #[trigger]
                tools.follows(model) && 0 <= j < i ==> #[trigger] ranks[j] == rank_of(
                    candidates@[j],
                    wanted,
                    model,
                ),
            best_rank matches Some(found) ==> best < i && found.tier == tier(
                candidates@[best as int].duration,
                duration,
            ),
            best_rank is Some ==> is_best(ranks, best as int) && ranks[best as int] == best_rank,
            best_rank is None ==> forall|j: int| 0 <= j < i ==> #[trigger] ranks[j] is None,
        decreases candidates@.len() - i,
    {
        let next = rank(&candidates[i], &keys, album_name, duration, tools);
        let ghost before = ranks;
        proof {
            ranks = ranks.push(next);
            assert(forall|j: int| 0 <= j < i ==> #[trigger] ranks[j] == before[j]);
        }
        if let Some(found) = next {
            let better = match &best_rank {
                Some(current) => found.comes_before(current),
                None => true,
            };
            if better {
                best = i;
                best_rank = Some(found);
            }
        }
        i += 1;
    }
    assert forall|model: TextModel| #[trigger] tools.follows(model) implies ranking(
        candidates@,
        wanted,
        model,
    ) == ranks by {
        assert(ranking(candidates@, wanted, model) =~= ranks);
    }
    match best_rank {
        Some(found) => {
            let mut remaining = candidates;
            let item = remaining.swap_remove(best);
            Some(offer(item, found.tier))
        },
        None => None,
    }
}

/// The better of the exact answer and the fallback.
pub fn choose_response<P: Fn(&str) -> String, L: Fn(&str) -> Option<LyricsPresence>>(
    exact: Option<RawResponse>,
    fallback: Option<RawResponse>,
    duration: Seconds,
    tools: &TextTools<P, L>,
) -> (out: Option<RawResponse>)
    requires
        tools.usable(),
    ensures
        forall|model: TextModel| #[trigger]
            tools.follows(model) ==> out == chosen(exact, fallback, duration, model),
        exact is None ==> out == fallback,
        fallback is None ==> out == exact,
        out == exact || out == fallback,
{
    match (exact, fallback) {
        (Some(own), Some(other)) => {
            if has_synced_lyrics(
                as_text(&other.synced_lyrics),
                as_text(&other.lyricsfile),
                &tools.lyrics_presence,
            ) && duration_tier(other.duration, duration) <= 1 && duration_tier(
                other.duration,
                duration,
            ) <= duration_tier(own.duration, duration) {
                Some(other)
            } else {
                Some(own)
            }
        },
        (Some(own), None) => Some(own),
        (None, other) => other,
    }
}

} // verus!
