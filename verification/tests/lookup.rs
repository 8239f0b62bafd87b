use lrclib::duration::{MeasuredDuration, Seconds};
use lrclib::error::{ApiError, RequestError, ResponseError};
use lrclib::get::RawResponse;
use lrclib::lookup::{artists_to_search, has_exact_synced_candidate, request_raw, Step};
use lrclib::search::SearchItem;
use lrclib::tools::{LyricsPresence, TextTools};

type Function<R> = fn(&str) -> R;
type Reply = Result<Vec<SearchItem>, RequestError<u8>>;
type Exact = Result<RawResponse, RequestError<u8>>;

fn lower(s: &str) -> String {
    s.to_lowercase()
}

fn presence(_: &str) -> Option<LyricsPresence> {
    None
}

fn tools() -> TextTools<Function<String>, Function<Option<LyricsPresence>>> {
    TextTools { prepare_input: lower, lyrics_presence: presence }
}

fn bits(seconds: f64) -> Seconds {
    Seconds { bits: seconds.to_bits() }
}

fn measured(seconds: f64) -> MeasuredDuration {
    MeasuredDuration {
        seconds: bits(seconds),
        whole: bits(seconds.round()),
        distance: bits((seconds - 200.0).abs()),
    }
}

fn item(name: &str, artist: &str, synced: bool) -> SearchItem {
    SearchItem {
        id: 1,
        name: Some(name.to_owned()),
        artist_name: Some(artist.to_owned()),
        album_name: None,
        duration: Some(measured(200.0)),
        instrumental: false,
        plain_lyrics: Some(format!("plain {name}")),
        synced_lyrics: if synced { Some("[00:01] a".to_owned()) } else { None },
        lyricsfile: None,
    }
}

fn exact(plain: Option<&str>, synced: Option<&str>, instrumental: bool) -> Exact {
    Ok(RawResponse {
        plain_lyrics: plain.map(|s| s.to_owned()),
        synced_lyrics: synced.map(|s| s.to_owned()),
        lyricsfile: None,
        instrumental,
        lang: None,
        isrc: None,
        spotify_id: None,
        name: None,
        album_name: None,
        artist_name: None,
        release_date: None,
        duration: Some(measured(200.0)),
    })
}

fn not_found() -> Exact {
    Err(RequestError::Response(ResponseError::no_lyrics()))
}

fn api<T>(status_code: u16) -> Result<T, RequestError<u8>> {
    Err(RequestError::Api(ApiError { status_code, body: "body".to_owned() }))
}

/// Runs a lookup against a server; gives the searches that were made, and the outcome.
fn run(
    title: &str,
    artist: &str,
    exact: Exact,
    server: &dyn Fn(&str, &str) -> Reply,
) -> (Vec<(String, String)>, Exact) {
    run_numbered(title, artist, exact, &|_, title, artist| server(title, artist))
}

/// Runs a lookup against a server that also knows the number of each search.
fn run_numbered(
    title: &str,
    artist: &str,
    exact: Exact,
    server: &dyn Fn(usize, &str, &str) -> Reply,
) -> (Vec<(String, String)>, Exact) {
    let mut made = Vec::new();
    let mut step = request_raw(title, "Album", artist, bits(200.0), exact, &tools());
    loop {
        match step {
            Step::Done(outcome) => return (made, outcome),
            Step::Search { title, artist_name, next } => {
                let reply = server(made.len(), &title, &artist_name);
                made.push((title, artist_name));
                step = next.resume(reply, &tools());
            }
        }
    }
}

fn pairs(list: &[(&str, &str)]) -> Vec<(String, String)> {
    list.iter().map(|(t, a)| (t.to_string(), a.to_string())).collect()
}

#[test]
fn synced_or_instrumental_answers_end_the_lookup() {
    for answer in [exact(None, Some("[00:01] a"), false), exact(None, None, true)] {
        let (made, outcome) = run("Song", "A", answer, &|_, _| panic!());
        assert!(made.is_empty());
        assert!(outcome.is_ok());
    }
}

#[test]
fn other_errors_end_the_lookup() {
    for answer in [api(500), Err(RequestError::Other(7)), Err(RequestError::InvalidUrl("x".to_owned()))] {
        let (made, outcome) = run("Song", "A", answer, &|_, _| panic!());
        assert!(made.is_empty());
        assert!(outcome.is_err());
    }
    let (_, outcome) = run("Song", "A", Err(RequestError::Other(7)), &|_, _| panic!());
    assert!(matches!(outcome, Err(RequestError::Other(7))));
}

#[test]
fn all_spellings_of_the_artist_are_searched() {
    let (made, outcome) = run("Song", "A & B", not_found(), &|_, _| Ok(Vec::new()));
    assert_eq!(
        made,
        pairs(&[
            ("Song", "A & B"),
            ("Song", "A and B"),
            ("Song", "A plus B"),
            ("Song", "A + B"),
        ])
    );
    match outcome {
        Err(RequestError::Response(e)) => {
            assert_eq!(e.describe(), "NotFound: There is no lyrics for this track")
        }
        _ => panic!(),
    }
}

#[test]
fn a_stripped_title_and_a_normalized_one_are_searched_last() {
    let (made, _) = run("Song! (Live)", "A", not_found(), &|_, _| Ok(Vec::new()));
    assert_eq!(made, pairs(&[("Song! (Live)", "A"), ("Song!", "A"), ("song live", "A")]));
    // The title is its own normalized form up to case and white space at its ends.
    let (made, _) = run(" SONG ", "A", not_found(), &|_, _| Ok(Vec::new()));
    assert_eq!(made, pairs(&[(" SONG ", "A")]));
    // A title without letters has no normalized form.
    let (made, _) = run("!!", "A", not_found(), &|_, _| Ok(Vec::new()));
    assert_eq!(made, pairs(&[("!!", "A")]));
}

#[test]
fn eleven_searches_are_made_at_most() {
    let (made, _) = run("Song! (Live)", "A+B", not_found(), &|_, _| Ok(Vec::new()));
    assert_eq!(made.len(), 11);
    assert_eq!(made[4], ("Song! (Live)".to_owned(), "A + B".to_owned()));
    assert_eq!(made[5], ("Song!".to_owned(), "A+B".to_owned()));
    assert_eq!(made[10], ("song live".to_owned(), "A+B".to_owned()));
}

#[test]
fn the_wanted_track_with_synced_lyrics_saves_the_stripped_search() {
    let server = |title: &str, _: &str| Ok(vec![item(title, "A", true)]);
    let (made, outcome) = run("Song (Live)", "A", not_found(), &server);
    assert_eq!(made, pairs(&[("Song (Live)", "A")]));
    assert_eq!(outcome.unwrap().plain_lyrics.as_deref(), Some("plain Song (Live)"));
    let server = |title: &str, _: &str| Ok(vec![item(title, "A", title == "Song")]);
    let (made, outcome) = run("Song (Live)", "A", not_found(), &server);
    assert_eq!(made, pairs(&[("Song (Live)", "A"), ("Song", "A")]));
    // Synced lyrics count for more than the whole title.
    assert_eq!(outcome.unwrap().plain_lyrics.as_deref(), Some("plain Song"));
}

#[test]
fn the_normalized_title_may_find_the_track() {
    let server = |title: &str, _: &str| {
        Ok(if title == "song" { vec![item("Song", "A", false)] } else { Vec::new() })
    };
    let (made, outcome) = run("Song!", "A", not_found(), &server);
    assert_eq!(made, pairs(&[("Song!", "A"), ("song", "A")]));
    assert_eq!(outcome.unwrap().plain_lyrics.as_deref(), Some("plain Song"));
}

#[test]
fn what_was_found_is_kept_when_searches_fail() {
    let (_, outcome) = run("Song!", "A & B", exact(Some("own"), None, false), &|_, _| api(503));
    assert_eq!(outcome.unwrap().plain_lyrics.as_deref(), Some("own"));
    let server = |_: &str, artist: &str| {
        if artist == "A & B" { Ok(vec![item("Song", "A & B", false)]) } else { api(503) }
    };
    let (_, outcome) = run("Song", "A & B", not_found(), &server);
    assert_eq!(outcome.unwrap().plain_lyrics.as_deref(), Some("plain Song"));
}

#[test]
fn a_synced_track_replaces_plain_lyrics() {
    let (_, outcome) =
        run("Song", "A", exact(Some("own"), None, false), &|_, _| Ok(vec![item("Song", "A", true)]));
    assert_eq!(outcome.unwrap().plain_lyrics.as_deref(), Some("plain Song"));
    let (_, outcome) =
        run("Song", "A", exact(Some("own"), None, false), &|_, _| Ok(vec![item("Song", "A", false)]));
    assert_eq!(outcome.unwrap().plain_lyrics.as_deref(), Some("own"));
}

#[test]
fn the_last_error_is_reported() {
    let server = |_: &str, artist: &str| match artist {
        "A & B" => api(500),
        "A and B" => api(501),
        _ => Ok(Vec::new()),
    };
    match run("Song", "A & B", not_found(), &server).1 {
        Err(RequestError::Api(e)) => assert_eq!(e.status_code, 501),
        _ => panic!(),
    }
    // The last search may fail as well.
    let server = |title: &str, _: &str| if title == "song" { api(502) } else { api(501) };
    match run("Song!", "A", not_found(), &server).1 {
        Err(RequestError::Api(e)) => assert_eq!(e.status_code, 502),
        _ => panic!(),
    }
}

#[test]
fn a_refused_request_is_searched_for_and_reported_in_the_end() {
    let (made, outcome) = run("Song", "A", api(400), &|_, _| Ok(Vec::new()));
    assert_eq!(made.len(), 1);
    match outcome {
        Err(RequestError::Api(e)) => {
            assert_eq!(e.status_code, 400);
            assert_eq!(e.body, "body");
        }
        _ => panic!(),
    }
    let (_, outcome) = run("Song", "A", api(400), &|_, _| Ok(vec![item("Song", "A", false)]));
    assert!(outcome.is_ok());
}

#[test]
fn artists_are_searched_under_distinct_names() {
    assert_eq!(artists_to_search("A & B"), vec!["A & B", "A and B", "A plus B", "A + B"]);
    assert_eq!(artists_to_search("A"), vec!["A"]);
    assert_eq!(artists_to_search(""), vec![""]);
}

#[test]
fn the_wanted_track_is_told_by_title_artist_duration_and_lyrics() {
    let found = |i: SearchItem| {
        has_exact_synced_candidate(&vec![i], "Song (Live)", "A & B", bits(200.0), &tools())
    };
    assert!(found(item("SONG live", "a and b", true)));
    assert!(!found(item("Song", "A & B", true)));
    assert!(!found(item("Song (Live)", "A", true)));
    assert!(!found(item("Song (Live)", "A & B", false)));
    assert!(!found(SearchItem { duration: Some(measured(201.0)), ..item("Song (Live)", "A & B", true) }));
    assert!(!found(SearchItem { name: None, ..item("Song (Live)", "A & B", true) }));
    assert!(!has_exact_synced_candidate(&Vec::new(), "Song", "A", bits(200.0), &tools()));
}

#[test]
fn the_server_may_answer_the_same_search_otherwise() {
    let server = |n: usize, _: &str, _: &str| {
        Ok(if n == 2 { vec![item("a", "A", false)] } else { Vec::new() })
    };
    let (made, outcome) = run_numbered("a ()", "A", not_found(), &server);
    assert_eq!(made, pairs(&[("a ()", "A"), ("a", "A"), ("a", "A")]));
    assert_eq!(outcome.unwrap().plain_lyrics.as_deref(), Some("plain a"));
    let server = |n: usize, _: &str, _: &str| if n == 1 { api(500) } else { Ok(Vec::new()) };
    match run_numbered("a ()", "A", not_found(), &server).1 {
        Err(RequestError::Api(e)) => assert_eq!(e.status_code, 500),
        _ => panic!(),
    }
}

#[test]
fn every_artist_is_searched_for_once() {
    for artist in ["A & B", "A+B", "and", "A and B plus C", "A  and  B", "Band", "A and"] {
        let names = artists_to_search(artist);
        assert_eq!(names[0], artist);
        for (i, name) in names.iter().enumerate() {
            assert!(!names[..i].contains(name), "{artist}");
        }
        assert!(names.len() == 1 || names.len() == 4 || names.len() == 5, "{artist}");
    }
}
