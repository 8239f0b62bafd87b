use lrclib::duration::{duration_tier, MeasuredDuration, Seconds};
use lrclib::fallback::{choose_response, has_synced_lyrics, select_fallback};
use lrclib::get::RawResponse;
use lrclib::names::title_without_parentheses;
use lrclib::search::SearchItem;
use lrclib::tools::{LyricsPresence, TextTools};

fn lower(s: &str) -> String {
    s.to_lowercase()
}

/// A lyricsfile that begins with `synced` has synced lyrics; one that begins with `broken` cannot
/// be read.
fn presence(text: &str) -> Option<LyricsPresence> {
    if text.starts_with("broken") {
        None
    } else {
        Some(LyricsPresence { has_synced_lyrics: text.starts_with("synced") })
    }
}

type Function<R> = fn(&str) -> R;

fn tools() -> TextTools<Function<String>, Function<Option<LyricsPresence>>> {
    TextTools { prepare_input: lower, lyrics_presence: presence }
}

fn bits(seconds: f64) -> Seconds {
    Seconds { bits: seconds.to_bits() }
}

fn whole(seconds: f64) -> Seconds {
    bits(seconds.round())
}

fn measured(seconds: f64, wanted: f64) -> MeasuredDuration {
    MeasuredDuration {
        seconds: bits(seconds),
        whole: whole(seconds),
        distance: bits((seconds - wanted).abs()),
    }
}

fn seconds(duration: Option<MeasuredDuration>) -> Option<f64> {
    duration.map(|d| f64::from_bits(d.seconds.bits))
}

fn candidate(duration: f64, artist: &str, wanted: f64) -> SearchItem {
    SearchItem {
        id: 1,
        name: Some("Song".to_owned()),
        artist_name: Some(artist.to_owned()),
        album_name: Some("Other album".to_owned()),
        duration: Some(measured(duration, wanted)),
        instrumental: false,
        plain_lyrics: Some("plain".to_owned()),
        synced_lyrics: Some("[00:01.00] plain".to_owned()),
        lyricsfile: None,
    }
}

fn select(items: Vec<SearchItem>) -> Option<RawResponse> {
    select_fallback(items, "Song", "Album", "A & B", whole(200.0), &tools())
}

fn response(duration: Option<f64>, synced: Option<&str>) -> RawResponse {
    RawResponse {
        plain_lyrics: Some("plain".to_owned()),
        synced_lyrics: synced.map(|s| s.to_owned()),
        lyricsfile: None,
        instrumental: false,
        lang: None,
        isrc: None,
        spotify_id: None,
        name: None,
        album_name: None,
        artist_name: None,
        release_date: None,
        duration: duration.map(|d| measured(d, 200.0)),
    }
}

#[test]
fn fallback_prefers_equal_duration_over_nearby_duration() {
    let result = select_fallback(
        vec![candidate(201.5, "A and B", 200.0), candidate(200.0, "A & B", 200.0)],
        "Song", "Album", "A & B", whole(200.0), &tools(),
    ).unwrap();
    assert_eq!(seconds(result.duration), Some(200.0));
    assert!(result.synced_lyrics.is_some());
}

#[test]
fn fallback_accepts_under_three_seconds_then_plain_only() {
    let near = select_fallback(
        vec![candidate(202.9, "A plus B", 200.0)],
        "Song", "Album", "A & B", whole(200.0), &tools(),
    ).unwrap();
    assert!(near.synced_lyrics.is_some());
    let far = select_fallback(
        vec![candidate(203.0, "A plus B", 200.0)],
        "Song", "Album", "A & B", whole(200.0), &tools(),
    ).unwrap();
    assert_eq!(far.plain_lyrics.as_deref(), Some("plain"));
    assert!(far.synced_lyrics.is_none());
    assert!(far.lyricsfile.is_none());
}

#[test]
fn fallback_rejects_unmatched_or_unusable_results() {
    let mut wrong_title = candidate(200.0, "A & B", 200.0);
    wrong_title.name = Some("Different song".to_owned());
    let mut no_plain = candidate(203.0, "A & B", 200.0);
    no_plain.plain_lyrics = None;
    assert!(select_fallback(
        vec![wrong_title, no_plain],
        "Song", "Album", "A & B", whole(200.0), &tools(),
    ).is_none());
}

#[test]
fn synced_match_in_another_album_replaces_plain_match() {
    let plain = RawResponse {
        plain_lyrics: Some("plain".to_owned()),
        synced_lyrics: None,
        lyricsfile: None,
        instrumental: false,
        lang: None, isrc: None, spotify_id: None,
        name: Some("Time Is on Your Side".to_owned()),
        album_name: Some("Boogie Wonderland: The Best Of".to_owned()),
        artist_name: Some("Earth, Wind & Fire".to_owned()),
        release_date: None,
        duration: Some(measured(222.506667, 222.0)),
    };
    let mut synced = candidate(222.0, "Earth Wind & Fire", 222.0);
    synced.name = Some("Time Is On Your Side".to_owned());
    let mut plain_in_local_album = candidate(222.0, "Earth, Wind & Fire", 222.0);
    plain_in_local_album.name = Some("Time Is On Your Side".to_owned());
    plain_in_local_album.album_name = Some("Boogie Wonderland: The Best Of".to_owned());
    plain_in_local_album.synced_lyrics = None;
    let fallback = select_fallback(
        vec![plain_in_local_album, synced],
        "Time Is on Your Side", "Boogie Wonderland: The Best Of", "Earth, Wind & Fire",
        whole(222.0), &tools(),
    );
    let chosen = choose_response(Some(plain), fallback, whole(222.0), &tools()).unwrap();
    assert_eq!(seconds(chosen.duration), Some(222.0));
    assert!(chosen.synced_lyrics.is_some());
}

#[test]
fn apostrophe_styles_match_without_changing_the_song() {
    let mut item = candidate(200.0, "Singer", 200.0);
    item.name = Some("Don\u{2019}t Stop".to_owned());
    assert!(select_fallback(
        vec![item], "Don't Stop", "Album", "Singer", whole(200.0), &tools(),
    ).is_some());
}

#[test]
fn parenthetical_title_has_a_stripped_fallback() {
    assert_eq!(title_without_parentheses("Song (Live) (Remastered)"), Some("Song".to_owned()));
    assert_eq!(title_without_parentheses("Song"), None);
    let result = select_fallback(
        vec![candidate(200.0, "Singer", 200.0)],
        "Song (Live)", "Album", "Singer", whole(200.0), &tools(),
    );
    assert!(result.is_some());
}

#[test]
fn durations_fall_into_tiers() {
    let tier = |value: f64, wanted: f64| duration_tier(Some(measured(value, wanted)), whole(wanted));
    assert_eq!(tier(200.0, 200.0), 0);
    assert_eq!(tier(200.4, 199.6), 0);
    assert_eq!(tier(200.5, 200.4), 1);
    assert_eq!(tier(202.9, 200.0), 1);
    assert_eq!(tier(203.0, 200.0), 2);
    assert_eq!(tier(197.0, 200.0), 2);
    assert_eq!(tier(0.2, -0.2), 0);
    assert_eq!(tier(f64::NAN, 200.0), 2);
    assert_eq!(tier(200.0, f64::NAN), 2);
    assert_eq!(tier(f64::NAN, f64::NAN), 2);
    assert_eq!(tier(f64::INFINITY, f64::INFINITY), 0);
    assert_eq!(tier(f64::INFINITY, f64::NEG_INFINITY), 2);
    assert_eq!(duration_tier(None, whole(200.0)), 2);
}

#[test]
fn tiers_agree_with_floating_point_arithmetic() {
    let values = [
        0.0, -0.0, 0.5, -0.5, 1.5, 2.5, 2.9999999999999996, 3.0, 3.0000000000000004, 1e-300, 222.506667,
        219.5066670000001, 1e300, -1e300, f64::MAX, f64::MIN_POSITIVE, f64::INFINITY,
        f64::NEG_INFINITY, f64::NAN,
    ];
    for value in values {
        for wanted in values {
            let expected = if value.round() == wanted.round() {
                0
            } else if (value - wanted).abs() < 3.0 {
                1
            } else {
                2
            };
            let got = duration_tier(Some(measured(value, wanted)), whole(wanted));
            assert_eq!(got, expected, "{value} {wanted}");
        }
    }
}

#[test]
fn synced_lyrics_are_sent_or_in_the_lyricsfile() {
    let has = |synced, file| has_synced_lyrics(synced, file, &presence);
    assert!(has(Some("[00:01] a"), None));
    assert!(has(Some("[00:01] a"), Some("broken")));
    assert!(has(Some(""), Some("synced")));
    assert!(has(None, Some("synced")));
    assert!(!has(Some(""), None));
    assert!(!has(None, Some("plain")));
    assert!(!has(None, Some("broken")));
    assert!(!has(None, None));
}

#[test]
fn nothing_is_offered_for_a_name_without_letters() {
    let items = || vec![candidate(200.0, "A & B", 200.0)];
    let t = tools();
    assert!(select_fallback(items(), "!?", "Album", "A & B", whole(200.0), &t).is_none());
    assert!(select_fallback(items(), "Song", "Album", "-", whole(200.0), &t).is_none());
    assert!(select(vec![]).is_none());
}

#[test]
fn a_track_needs_a_name_an_artist_and_something_to_tell() {
    let mut nameless = candidate(200.0, "A & B", 200.0);
    nameless.name = None;
    let mut by_nobody = candidate(200.0, "A & B", 200.0);
    by_nobody.artist_name = None;
    let mut empty = candidate(200.0, "A & B", 200.0);
    empty.plain_lyrics = Some(String::new());
    empty.synced_lyrics = Some(String::new());
    empty.lyricsfile = Some(String::new());
    let other = candidate(200.0, "A & C", 200.0);
    assert!(select(vec![nameless, by_nobody, empty, other]).is_none());
    let mut silent = candidate(200.0, "A & B", 200.0);
    silent.plain_lyrics = None;
    silent.synced_lyrics = None;
    silent.instrumental = true;
    assert!(select(vec![silent]).unwrap().instrumental);
}

#[test]
fn an_unknown_duration_counts_as_another_one() {
    let mut item = candidate(200.0, "A & B", 200.0);
    item.duration = None;
    item.instrumental = true;
    item.lyricsfile = Some("synced".to_owned());
    let out = select(vec![item]).unwrap();
    assert_eq!(out.plain_lyrics.as_deref(), Some("plain"));
    assert!(out.synced_lyrics.is_none());
    assert!(out.lyricsfile.is_none());
    assert!(!out.instrumental);
    assert!(out.duration.is_none());
}

/// The album of the track that is selected.
fn winner(items: Vec<(&str, SearchItem)>) -> String {
    let items = items
        .into_iter()
        .map(|(mark, mut item)| {
            item.plain_lyrics = Some(mark.to_owned());
            item
        })
        .collect();
    select_fallback(items, "Song (Live)", "ALBUM", "A & B", whole(200.0), &tools())
        .unwrap()
        .plain_lyrics
        .unwrap()
}

#[test]
fn tracks_are_ranked_field_by_field() {
    let item = |duration: f64| candidate(duration, "A & B", 200.0);
    let unsynced = |duration: f64| SearchItem { synced_lyrics: None, ..item(duration) };
    let live = |i: SearchItem| SearchItem { name: Some("Song (live)".to_owned()), ..i };
    let same_album = |i: SearchItem| SearchItem { album_name: Some("album".to_owned()), ..i };
    // Duration before synced lyrics.
    assert_eq!(winner(vec![("near", item(201.0)), ("equal", unsynced(200.0))]), "equal");
    // Synced lyrics before the title.
    assert_eq!(winner(vec![("live", live(unsynced(200.0))), ("synced", item(200.0))]), "synced");
    // The title before the album.
    assert_eq!(winner(vec![("album", same_album(item(200.0))), ("live", live(item(200.0)))]), "live");
    // The album, in any case, before the distance.
    assert_eq!(winner(vec![("close", item(200.0)), ("album", same_album(item(200.4)))]), "album");
    // The distance.
    assert_eq!(winner(vec![("far", item(200.4)), ("close", item(200.1))]), "close");
    // Of equals the first.
    assert_eq!(winner(vec![("first", item(200.0)), ("second", item(200.0))]), "first");
    // A lyricsfile counts as well.
    let file = SearchItem { lyricsfile: Some("synced".to_owned()), ..unsynced(200.0) };
    assert_eq!(winner(vec![("plain", live(unsynced(200.0))), ("file", file)]), "file");
}

#[test]
fn the_fallback_keeps_what_the_track_told() {
    let mut item = candidate(200.0, "a AND b", 200.0);
    item.lyricsfile = Some("text".to_owned());
    let out = select(vec![item]).unwrap();
    assert_eq!(out.name.as_deref(), Some("Song"));
    assert_eq!(out.artist_name.as_deref(), Some("a AND b"));
    assert_eq!(out.album_name.as_deref(), Some("Other album"));
    assert_eq!(out.lyricsfile.as_deref(), Some("text"));
    assert_eq!(out.synced_lyrics.as_deref(), Some("[00:01.00] plain"));
    assert!(out.lang.is_none() && out.isrc.is_none() && out.spotify_id.is_none());
    assert!(out.release_date.is_none());
}

#[test]
fn the_exact_answer_gives_way_only_to_a_better_one() {
    let choose = |exact: Option<RawResponse>, fallback: Option<RawResponse>| {
        seconds(choose_response(exact, fallback, whole(200.0), &tools()).unwrap().duration)
    };
    let synced = Some("[00:01] a");
    // Synced and as near.
    assert_eq!(choose(Some(response(Some(200.2), None)), Some(response(Some(200.0), synced))), Some(200.0));
    assert_eq!(choose(Some(response(None, None)), Some(response(Some(202.0), synced))), Some(202.0));
    // Not synced.
    assert_eq!(choose(Some(response(Some(200.2), None)), Some(response(Some(200.0), None))), Some(200.2));
    // Not as near.
    assert_eq!(choose(Some(response(Some(200.2), None)), Some(response(Some(202.0), synced))), Some(200.2));
    // Another duration.
    assert_eq!(choose(Some(response(Some(209.0), None)), Some(response(Some(210.0), synced))), Some(209.0));
    // Only one.
    assert_eq!(choose(Some(response(Some(209.0), None)), None), Some(209.0));
    assert_eq!(choose(None, Some(response(Some(210.0), None))), Some(210.0));
    assert!(choose_response(None, None, whole(200.0), &tools()).is_none());
}
