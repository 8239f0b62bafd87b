use lrclib::get::{make_request, try_make_request};
use lrclib::http::{get_json, HttpAction, HttpEvent, TransportError, ATTEMPTS, FIRST_ATTEMPT, URL_LIMIT};
use lrclib::search;

const QUIET: TransportError =
    TransportError { connect: false, timeout: false, body: false, decode: false };

fn answered(status: u16) -> HttpEvent {
    HttpEvent::Answered { status }
}

#[test]
fn passing_trouble_is_waited_out() {
    for status in [429, 502, 503, 504] {
        assert_eq!(get_json(0, answered(status)), HttpAction::Retry { attempt: 1, delay_millis: 250 });
        assert_eq!(get_json(1, answered(status)), HttpAction::Retry { attempt: 2, delay_millis: 500 });
        assert_eq!(get_json(2, answered(status)), HttpAction::ReadBody);
    }
}

#[test]
fn other_answers_are_taken_at_once() {
    for attempt in 0..ATTEMPTS {
        assert_eq!(get_json(attempt, answered(404)), HttpAction::NoBody);
        for status in [200, 400, 401, 500, 501, 505] {
            assert_eq!(get_json(attempt, answered(status)), HttpAction::ReadBody);
        }
    }
}

#[test]
fn failures_to_send_are_retried_if_they_may_pass() {
    for e in [
        TransportError { connect: true, ..QUIET },
        TransportError { timeout: true, ..QUIET },
        TransportError { body: true, ..QUIET },
    ] {
        assert_eq!(get_json(0, HttpEvent::SendFailed(e)), HttpAction::Retry { attempt: 1, delay_millis: 250 });
        assert_eq!(get_json(1, HttpEvent::SendFailed(e)), HttpAction::Retry { attempt: 2, delay_millis: 500 });
        assert_eq!(get_json(2, HttpEvent::SendFailed(e)), HttpAction::Fail);
    }
    assert_eq!(get_json(0, HttpEvent::SendFailed(QUIET)), HttpAction::Fail);
    let decode = TransportError { decode: true, ..QUIET };
    assert_eq!(get_json(0, HttpEvent::SendFailed(decode)), HttpAction::Fail);
}

#[test]
fn failures_to_read_are_retried_if_they_may_pass() {
    for e in [
        TransportError { decode: true, ..QUIET },
        TransportError { timeout: true, ..QUIET },
        TransportError { body: true, ..QUIET },
    ] {
        assert_eq!(get_json(1, HttpEvent::BodyFailed(e)), HttpAction::Retry { attempt: 2, delay_millis: 500 });
        assert_eq!(get_json(2, HttpEvent::BodyFailed(e)), HttpAction::Fail);
    }
    assert_eq!(get_json(0, HttpEvent::BodyFailed(QUIET)), HttpAction::Fail);
    let connect = TransportError { connect: true, ..QUIET };
    assert_eq!(get_json(0, HttpEvent::BodyFailed(connect)), HttpAction::Fail);
}

#[test]
fn a_request_is_sent_three_times_at_most() {
    let mut attempt = FIRST_ATTEMPT;
    let mut waited = 0;
    while let HttpAction::Retry { attempt: next, delay_millis } = get_json(attempt, answered(503)) {
        attempt = next;
        waited += delay_millis;
    }
    assert_eq!(attempt, 2);
    assert_eq!(waited, 750);
}

#[test]
fn a_track_is_asked_for_by_its_parameters() {
    let request =
        make_request("Song & Dance", Some("Alb\u{fc}m"), "A+B", "223", "https://lrclib.net//", "1.2");
    assert_eq!(
        request.url.unwrap(),
        "https://lrclib.net/api/get?artist_name=A%2BB&track_name=Song+%26+Dance&duration=223\
         &album_name=Alb%C3%BCm"
    );
    assert_eq!(
        request.user_agent,
        "LRCGET v1.2 (https://github.com/tranxuanthang/lrcget)"
    );
    assert_eq!(request.timeout_secs, 10);
}

#[test]
fn an_album_without_a_name_is_left_out() {
    let expected = "http://h/api/get?artist_name=a&track_name=t&duration=1";
    for album in [None, Some("")] {
        let request = make_request("t", album, "a", "1", "http://h", "1");
        assert_eq!(request.url.unwrap(), expected);
    }
}

#[test]
fn a_bad_address_is_reported() {
    let error = make_request("t", None, "a", "1", "nowhere", "1").url.unwrap_err();
    assert_eq!(error, "relative URL without a base");
    assert!(search::request("t", "", "a", "", "", "1").url.is_err());
}

#[test]
fn a_search_leaves_out_what_is_empty() {
    let request = search::request("t t", "", "a", "", "http://h/x/", "1");
    assert_eq!(request.url.unwrap(), "http://h/x/api/search?track_name=t+t&artist_name=a");
    let request = search::request("", "b", "", "q", "http://h", "1");
    assert_eq!(request.url.unwrap(), "http://h/api/search?album_name=b&q=q");
    let request = search::request("", "", "", "", "http://h", "1");
    assert_eq!(request.url.unwrap(), "http://h/api/search?");
    assert_eq!(request.timeout_secs, 10);
}

#[test]
fn slashes_at_the_end_of_the_address_do_not_matter() {
    let urls: Vec<String> = ["http://h", "http://h/", "http://h///"]
        .iter()
        .map(|h| search::request("t", "", "a", "", h, "1").url.unwrap())
        .collect();
    assert_eq!(urls[0], urls[1]);
    assert_eq!(urls[0], urls[2]);
}

#[test]
fn long_titles_are_sent_as_they_are() {
    let title = "t".repeat(0x100_0000);
    for instance in ["http://h/", "http://h"] {
        let url = search::request(&title, "", "", "", instance, "1").url.unwrap();
        assert_eq!(url.len(), "http://h/api/search?track_name=".len() + title.len());
    }
    let url = make_request(&title, None, "a", "1", "http://h", "1").url.unwrap();
    assert!(url.contains(&title));
}

#[test]
fn an_address_may_be_shortened() {
    let instance = format!("http://h{}", "/..\t".repeat(0x40_0000));
    let url = search::try_request("t", "", "", "", &instance, "1").unwrap().url.unwrap();
    assert_eq!(url, "http://h/api/search?track_name=t");
    let slashes = format!("http://h{}", "/".repeat(0x100_0000));
    let url = try_make_request("t", None, "a", "1", &slashes, "1").unwrap().url.unwrap();
    assert_eq!(url, "http://h/api/get?artist_name=a&track_name=t&duration=1");
}

#[test]
fn a_fragment_comes_after_the_parameters() {
    let request = search::try_request("t", "", "", "", "http://h/#f", "1").unwrap();
    assert_eq!(request.url.unwrap(), "http://h/?track_name=t#f/api/search");
}

#[test]
fn an_address_has_its_limits() {
    let instance = "h".repeat(URL_LIMIT);
    assert!(search::try_request("t", "", "", "", &instance, "1").is_none());
    assert!(try_make_request("t", None, "a", "1", &instance, "1").is_none());
    let error = try_make_request("t", None, "a", "1", "nowhere", "1").unwrap().url.unwrap_err();
    assert_eq!(error, "relative URL without a base");
}

#[test]
fn no_attempt_follows_the_last() {
    assert_eq!(get_json(u64::MAX, answered(503)), HttpAction::ReadBody);
}
