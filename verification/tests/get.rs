use lrclib::error::{is_not_found, ApiError, RequestError, ResponseError};
use lrclib::get::{request, request_raw_once, RawResponse, Response};
use lrclib::search;

fn raw() -> RawResponse {
    RawResponse {
        plain_lyrics: None,
        synced_lyrics: None,
        lyricsfile: None,
        instrumental: false,
        lang: None,
        isrc: None,
        spotify_id: None,
        name: None,
        album_name: None,
        artist_name: None,
        release_date: None,
        duration: None,
    }
}

fn strip(s: &str) -> String {
    s.replace("[00:01] ", "")
}

fn text(s: &str) -> Option<String> {
    Some(s.to_owned())
}

fn not_found() -> RequestError<u8> {
    RequestError::Response(ResponseError::no_lyrics())
}

#[test]
fn synced_lyrics_are_told_with_their_plain_form() {
    let both = RawResponse { synced_lyrics: text("[00:01] a"), plain_lyrics: text("b"), ..raw() };
    assert!(matches!(
        Response::from_raw_response(both, &strip),
        Response::SyncedLyrics(s, p) if s == "[00:01] a" && p == "b"
    ));
    let synced = RawResponse { synced_lyrics: text("[00:01] a"), instrumental: true, ..raw() };
    assert!(matches!(
        Response::from_raw_response(synced, &strip),
        Response::SyncedLyrics(s, p) if s == "[00:01] a" && p == "a"
    ));
}

#[test]
fn lyrics_are_stripped_once_and_kept() {
    let calls = std::cell::Cell::new(0);
    let strip = |_: &str| {
        calls.set(calls.get() + 1);
        format!("call {}", calls.get())
    };
    for expected in ["call 1", "call 2"] {
        let synced = RawResponse { synced_lyrics: text("[00:01] a"), ..raw() };
        assert!(matches!(
            request::<u8, _>(Ok(synced), &strip),
            Ok(Response::SyncedLyrics(s, p)) if s == "[00:01] a" && p == expected
        ));
    }
}

#[test]
fn other_answers_are_told_as_they_are() {
    let plain = RawResponse { plain_lyrics: text("b"), instrumental: true, ..raw() };
    assert!(matches!(
        Response::from_raw_response(plain, &strip),
        Response::UnsyncedLyrics(p) if p == "b"
    ));
    let silent = RawResponse { instrumental: true, ..raw() };
    assert!(matches!(Response::from_raw_response(silent, &strip), Response::IsInstrumental));
    let file = RawResponse { lyricsfile: text("x"), ..raw() };
    assert!(matches!(Response::from_raw_response(file, &strip), Response::NoLyrics));
}

#[test]
fn an_answer_must_tell_something() {
    let once = |parsed: RawResponse| request_raw_once::<u8>(200, Ok(parsed), String::new());
    assert!(once(RawResponse { plain_lyrics: text(""), ..raw() }).is_ok());
    assert!(once(RawResponse { synced_lyrics: text(""), ..raw() }).is_ok());
    assert!(once(RawResponse { lyricsfile: text(""), ..raw() }).is_ok());
    assert!(once(RawResponse { instrumental: true, ..raw() }).is_ok());
    let error = once(raw()).unwrap_err();
    assert!(is_not_found(&error));
    match error {
        RequestError::Response(e) => {
            assert_eq!(e.status_code, Some(404));
            assert_eq!(e.describe(), "NotFound: There is no lyrics for this track");
        }
        _ => panic!(),
    }
}

#[test]
fn answers_are_read_by_their_status() {
    let full = || RawResponse { plain_lyrics: text("b"), ..raw() };
    assert!(is_not_found(&request_raw_once::<u8>(404, Ok(full()), String::new()).unwrap_err()));
    assert!(matches!(
        request_raw_once::<u8>(200, Err(7), String::new()),
        Err(RequestError::Other(7))
    ));
    for status in [201, 400, 429, 500] {
        match request_raw_once::<u8>(status, Ok(full()), "body".to_owned()) {
            Err(RequestError::Api(e)) => {
                assert_eq!(e.status_code, status);
                assert_eq!(e.body, "body");
            }
            _ => panic!(),
        }
    }
}

#[test]
fn search_answers_are_read_by_their_status() {
    let empty = || search::Response(Vec::new());
    let items = search::read_answer::<u8>(200, Ok(empty()), String::new()).unwrap().into_items();
    assert!(items.is_empty());
    assert!(matches!(
        search::read_answer::<u8>(200, Err(7), String::new()),
        Err(RequestError::Other(7))
    ));
    for status in [404, 400, 503] {
        match search::read_answer::<u8>(status, Ok(empty()), "body".to_owned()) {
            Err(RequestError::Api(e)) => assert_eq!((e.status_code, e.body.as_str()), (status, "body")),
            _ => panic!(),
        }
    }
}

#[test]
fn only_the_server_says_that_nothing_was_found() {
    assert!(is_not_found(&not_found()));
    let other = |status_code| {
        RequestError::<u8>::Response(ResponseError {
            status_code,
            error: "NotFound".to_owned(),
            message: String::new(),
        })
    };
    assert!(is_not_found(&other(Some(404))));
    assert!(!is_not_found(&other(Some(400))));
    assert!(!is_not_found(&other(None)));
    assert!(!is_not_found(&RequestError::<u8>::Api(ApiError { status_code: 404, body: String::new() })));
    assert!(!is_not_found(&RequestError::<u8>::InvalidUrl(String::new())));
    assert!(!is_not_found(&RequestError::Other(7u8)));
}

#[test]
fn nothing_found_is_no_failure_for_the_user() {
    assert!(matches!(request(Err(not_found()), &strip), Ok(Response::NoLyrics)));
    assert!(matches!(request(Err(RequestError::Other(7u8)), &strip), Err(RequestError::Other(7))));
    let plain = RawResponse { plain_lyrics: text("b"), ..raw() };
    assert!(matches!(
        request::<u8, _>(Ok(plain), &strip),
        Ok(Response::UnsyncedLyrics(p)) if p == "b"
    ));
}
