//! Fetching the lyrics of one track.

use crate::duration::MeasuredDuration;
use crate::error::{
    is_not_found, no_lyrics_error, result_view, says_not_found, ApiError, RequestError,
    RequestErrorView, ResponseError,
};
use crate::http::{
    address_of, build_request, is_request, param_texts, try_build_request, within_limit,
    HttpRequest,
};
use crate::text::{opt_text, text_of};
use crate::tools::{computes, may_return, total};
use vstd::prelude::*;

verus! {

/// What the server tells of a track.
#[derive(Debug)]
pub struct RawResponse {
    pub plain_lyrics: Option<String>,
    pub synced_lyrics: Option<String>,
    pub lyricsfile: Option<String>,
    pub instrumental: bool,
    pub lang: Option<String>,
    pub isrc: Option<String>,
    pub spotify_id: Option<String>,
    pub name: Option<String>,
    pub album_name: Option<String>,
    pub artist_name: Option<String>,
    pub release_date: Option<String>,
    pub duration: Option<MeasuredDuration>,
}

/// The lyrics of a track.
#[derive(Debug)]
pub enum Response {
    /// Lyrics with time stamps, and the same without.
    SyncedLyrics(String, String),
    UnsyncedLyrics(String),
    IsInstrumental,
    NoLyrics,
}

/// `Response` with texts for its strings.
pub enum ResponseView {
    SyncedLyrics(Seq<char>, Seq<char>),
    UnsyncedLyrics(Seq<char>),
    IsInstrumental,
    NoLyrics,
}

impl View for Response {
    type V = ResponseView;

    open spec fn view(&self) -> ResponseView {
        match self {
            Response::SyncedLyrics(synced, plain) => ResponseView::SyncedLyrics(synced@, plain@),
            Response::UnsyncedLyrics(plain) => ResponseView::UnsyncedLyrics(plain@),
            Response::IsInstrumental => ResponseView::IsInstrumental,
            Response::NoLyrics => ResponseView::NoLyrics,
        }
    }
}

/// What a user is told of a track: its synced lyrics with their plain form, which is made by
/// `strip` where the server gave none; or else its plain lyrics; or else that it has none to give.
pub open spec fn told(raw: RawResponse, strip: spec_fn(Seq<char>) -> Seq<char>) -> ResponseView {
    match (opt_text(raw.synced_lyrics), opt_text(raw.plain_lyrics)) {
        (Some(synced), Some(plain)) => ResponseView::SyncedLyrics(synced, plain),
        (Some(synced), None) => ResponseView::SyncedLyrics(synced, strip(synced)),
        (None, Some(plain)) => ResponseView::UnsyncedLyrics(plain),
        (None, None) => if raw.instrumental {
            ResponseView::IsInstrumental
        } else {
            ResponseView::NoLyrics
        },
    }
}

/// Whether a user may be told `out` of a track, where the plain form of synced lyrics, if the server
/// gave none, is one that `strip_timestamp` may return.
pub open spec fn may_be_told<S: Fn(&str) -> String>(
    raw: RawResponse,
    strip_timestamp: S,
    out: ResponseView,
) -> bool {
    match (opt_text(raw.synced_lyrics), opt_text(raw.plain_lyrics)) {
        (Some(synced), None) => out matches ResponseView::SyncedLyrics(kept, plain) && kept
            == synced && may_return(strip_timestamp, synced, plain),
        _ => out == told(raw, |lyrics: Seq<char>| lyrics),
    }
}

impl Response {
    /// Picks from the server's answer what a user is told. `strip_timestamp` takes the time stamps
    /// out of synced lyrics.
    pub fn from_raw_response<S: Fn(&str) -> String>(
        lrclib_response: RawResponse,
        strip_timestamp: &S,
    ) -> (out: Response)
        requires
            total(*strip_timestamp),
        ensures
            forall|strip: spec_fn(Seq<char>) -> Seq<char>| #[trigger]
                computes(*strip_timestamp, strip) ==> out@ == told(lrclib_response, strip),
            may_be_told(lrclib_response, *strip_timestamp, out@),
    {
        match lrclib_response.synced_lyrics {
            Some(synced_lyrics) => {
                let plain_lyrics = match lrclib_response.plain_lyrics {
                    Some(plain_lyrics) => plain_lyrics,
                    None => strip_timestamp(synced_lyrics.as_str()),
                };
                Response::SyncedLyrics(synced_lyrics, plain_lyrics)
            },
            None => match lrclib_response.plain_lyrics {
                Some(unsynced_lyrics) => Response::UnsyncedLyrics(unsynced_lyrics),
                None => {
                    if lrclib_response.instrumental {
                        Response::IsInstrumental
                    } else {
                        Response::NoLyrics
                    }
                },
            },
        }
    }
}

/// The parameters by which the server finds one track. An album without a name is left out.
pub open spec fn track_params(
    title: Seq<char>,
    album_name: Option<Seq<char>>,
    artist_name: Seq<char>,
    duration: Seq<char>,
) -> Seq<(Seq<char>, Seq<char>)> {
    let always = seq![
        ("artist_name"@, artist_name),
        ("track_name"@, title),
        ("duration"@, duration),
    ];
    match album_name {
        Some(album) => if album.len() > 0 {
            always.push(("album_name"@, album))
        } else {
            always
        },
        None => always,
    }
}

/// The parameters by which the server finds one track.
fn write_params(title: &str, album_name: Option<&str>, artist_name: &str, duration: &str) -> (out:
    Vec<(String, String)>)
    ensures
        param_texts(out@) == track_params(title@, text_of(album_name), artist_name@, duration@),
{
    let mut params: Vec<(String, String)> = Vec::new();
    params.push(("artist_name".to_owned(), artist_name.to_owned()));
    params.push(("track_name".to_owned(), title.to_owned()));
    params.push(("duration".to_owned(), duration.to_owned()));
    if let Some(album) = album_name {
        if !album.is_empty() {
            params.push(("album_name".to_owned(), album.to_owned()));
        }
    }
    assert(param_texts(params@) =~= track_params(
        title@,
        text_of(album_name),
        artist_name@,
        duration@,
    ));
    params
}

/// Puts together the request for one track. `duration` is its number of seconds, rounded and
/// written out; `version` is the application's.
pub fn make_request(
    title: &str,
    album_name: Option<&str>,
    artist_name: &str,
    duration: &str,
    lrclib_instance: &str,
    version: &str,
) -> (out: HttpRequest)
    requires
        within_limit(
            address_of(lrclib_instance@, "/api/get"@),
            track_params(title@, text_of(album_name), artist_name@, duration@),
        ),
    ensures
        is_request(
            out,
            lrclib_instance@,
            "/api/get"@,
            track_params(title@, text_of(album_name), artist_name@, duration@),
            version@,
        ),
{
    let params = write_params(title, album_name, artist_name, duration);
    build_request(lrclib_instance, "/api/get", &params, version)
}

/// Puts together the request for one track, unless the server's address is too long for a URL.
pub fn try_make_request(
    title: &str,
    album_name: Option<&str>,
    artist_name: &str,
    duration: &str,
    lrclib_instance: &str,
    version: &str,
) -> (out: Option<HttpRequest>)
    ensures
        out is Some == within_limit(
            address_of(lrclib_instance@, "/api/get"@),
            track_params(title@, text_of(album_name), artist_name@, duration@),
        ),
        out matches Some(request) ==> is_request(
            request,
            lrclib_instance@,
            "/api/get"@,
            track_params(title@, text_of(album_name), artist_name@, duration@),
            version@,
        ),
{
    let params = write_params(title, album_name, artist_name, duration);
    try_build_request(lrclib_instance, "/api/get", &params, version)
}

/// Whether an answer tells anything: lyrics in some form, or that there are none to tell.
pub open spec fn tells_something(response: RawResponse) -> bool {
    response.synced_lyrics is Some || response.plain_lyrics is Some || response.lyricsfile is Some
        || response.instrumental
}

/// What an answer to the request for one track means.
pub open spec fn track_answer<E>(
    status: u16,
    parsed: Result<RawResponse, E>,
    body: Seq<char>,
) -> Result<RawResponse, RequestErrorView<E>> {
    if status == 200 {
        match parsed {
            Ok(response) => if tells_something(response) {
                Ok(response)
            } else {
                Err(no_lyrics_error())
            },
            Err(e) => Err(RequestErrorView::Other(e)),
        }
    } else if status == 404 {
        Err(no_lyrics_error())
    } else {
        Err(RequestErrorView::Api { status, body })
    }
}

/// Reads the answer to the request for one track. `parsed` is what its body was read as.
pub fn request_raw_once<E>(status: u16, parsed: Result<RawResponse, E>, body: String) -> (out:
    Result<RawResponse, RequestError<E>>)
    ensures
        result_view(out) == track_answer(status, parsed, body@),
        out matches Ok(response) ==> status == 200 && parsed == Ok::<RawResponse, E>(response),
        status == 200 ==> (parsed matches Ok(response) ==> (response.synced_lyrics is Some
            || response.plain_lyrics is Some || response.lyricsfile is Some
            || response.instrumental ==> out == Ok::<RawResponse, RequestError<E>>(response))),
        status == 200 ==> (parsed matches Err(e) ==> out == Err::<RawResponse, RequestError<E>>(
            RequestError::Other(e),
        )),
        status != 200 && status != 404 ==> out == Err::<RawResponse, RequestError<E>>(
            RequestError::Api(ApiError { status_code: status, body }),
        ),
{
    if status == 200 {
        match parsed {
            Ok(response) => {
                if response.synced_lyrics.is_some() || response.plain_lyrics.is_some()
                    || response.lyricsfile.is_some() || response.instrumental {
                    Ok(response)
                } else {
                    Err(RequestError::Response(ResponseError::no_lyrics()))
                }
            },
            Err(e) => Err(RequestError::Other(e)),
        }
    } else if status == 404 {
        Err(RequestError::Response(ResponseError::no_lyrics()))
    } else {
        Err(RequestError::Api(ApiError { status_code: status, body }))
    }
}

/// What a user is told at the end of a lookup. That nothing was found is no failure.
pub open spec fn told_at_end<E>(
    outcome: Result<RawResponse, RequestErrorView<E>>,
    strip: spec_fn(Seq<char>) -> Seq<char>,
) -> Result<ResponseView, RequestErrorView<E>> {
    match outcome {
        Ok(raw) => Ok(told(raw, strip)),
        Err(e) => if says_not_found(e) {
            Ok(ResponseView::NoLyrics)
        } else {
            Err(e)
        },
    }
}

/// The response and the error of a result as texts.
pub open spec fn response_view<E>(r: Result<Response, RequestError<E>>) -> Result<
    ResponseView,
    RequestErrorView<E>,
> {
    match r {
        Ok(response) => Ok(response@),
        Err(e) => Err(e@),
    }
}

/// Turns the outcome of a lookup into what a user is told.
pub fn request<E, S: Fn(&str) -> String>(
    outcome: Result<RawResponse, RequestError<E>>,
    strip_timestamp: &S,
) -> (out: Result<Response, RequestError<E>>)
    requires
        total(*strip_timestamp),
    ensures
        forall|strip: spec_fn(Seq<char>) -> Seq<char>| #[trigger]
            computes(*strip_timestamp, strip) ==> response_view(out) == told_at_end(
                result_view(outcome),
                strip,
            ),
        outcome matches Ok(raw) ==> (out matches Ok(response) && may_be_told(
            raw,
            *strip_timestamp,
            response@,
        )),
        outcome matches Err(e) ==> response_view(out) == (if says_not_found(e@) {
            Ok(ResponseView::NoLyrics)
        } else {
            Err(e@)
        }),
{
    match outcome {
        Ok(response) => Ok(Response::from_raw_response(response, strip_timestamp)),
        Err(error) => {
            if is_not_found(&error) {
                Ok(Response::NoLyrics)
            } else {
                Err(error)
            }
        },
    }
}

/// An answer to the request for one track is passed on as it was sent if its status is 200 and it
/// has lyrics of some kind or is marked as instrumental, and never otherwise.
pub proof fn law_answer_passed_on<E>(
    status: u16,
    parsed: Result<RawResponse, E>,
    body: Seq<char>,
    response: RawResponse,
)
    ensures
        track_answer(status, parsed, body) == Ok::<RawResponse, RequestErrorView<E>>(response)
            <==> {
            &&& status == 200
            &&& parsed == Ok::<RawResponse, E>(response)
            &&& response.synced_lyrics is Some || response.plain_lyrics is Some
                || response.lyricsfile is Some || response.instrumental
        },
{
}

/// Where no answer is passed on, the error tells why: that there are no lyrics, with the status 404
/// or with nothing in the answer; that the answer could not be read; or the status and the body.
pub proof fn law_answer_refused<E>(status: u16, parsed: Result<RawResponse, E>, body: Seq<char>)
    requires
        track_answer(status, parsed, body) is Err,
    ensures
        ({
            let e = track_answer(status, parsed, body)->Err_0;
            let missing = RequestErrorView::<E>::Response {
                status_code: Some(404u16),
                error: "NotFound"@,
                message: "There is no lyrics for this track"@,
            };
            &&& status == 404 ==> e == missing
            &&& status == 200 && parsed is Ok ==> e == missing
            &&& status == 200 ==> (parsed matches Err(cause) ==> e == RequestErrorView::Other(cause))
            &&& status != 200 && status != 404 ==> e == (RequestErrorView::<E>::Api { status, body })
        }),
{
}

/// A user is told the lyrics as they were sent: synced ones with the plain ones, or with what
/// stripping makes of them; plain ones alone; or else whether the track is instrumental.
pub proof fn law_told(raw: RawResponse, strip: spec_fn(Seq<char>) -> Seq<char>)
    ensures
        raw.synced_lyrics matches Some(synced) ==> (raw.plain_lyrics matches Some(plain) ==> told(
            raw,
            strip,
        ) == ResponseView::SyncedLyrics(synced@, plain@)),
        raw.synced_lyrics matches Some(synced) ==> (raw.plain_lyrics is None ==> told(raw, strip)
            == ResponseView::SyncedLyrics(synced@, strip(synced@))),
        raw.synced_lyrics is None ==> (raw.plain_lyrics matches Some(plain) ==> told(raw, strip)
            == ResponseView::UnsyncedLyrics(plain@)),
        raw.synced_lyrics is None && raw.plain_lyrics is None ==> told(raw, strip) == (
        if raw.instrumental {
            ResponseView::IsInstrumental
        } else {
            ResponseView::NoLyrics
        }),
{
}

/// What a user may be told is what they are told with some way of stripping, and it keeps the synced
/// lyrics; the plain ones are then those that were sent or what stripping may return.
pub proof fn law_may_be_told<S: Fn(&str) -> String>(raw: RawResponse, strip: S, out: ResponseView)
    requires
        may_be_told(raw, strip, out),
    ensures
        raw.synced_lyrics matches Some(synced) ==> (out matches ResponseView::SyncedLyrics(kept, _)
            && kept == synced@),
        raw.synced_lyrics is Some ==> (raw.plain_lyrics matches Some(plain) ==> (
        out matches ResponseView::SyncedLyrics(_, kept) && kept == plain@)),
        raw.plain_lyrics is None ==> (raw.synced_lyrics matches Some(synced) ==> (
        out matches ResponseView::SyncedLyrics(_, made) && may_return(strip, synced@, made))),
        raw.synced_lyrics is None ==> (raw.plain_lyrics matches Some(plain) ==> out
            == ResponseView::UnsyncedLyrics(plain@)),
        raw.synced_lyrics is None && raw.plain_lyrics is None ==> (out is IsInstrumental
            <==> raw.instrumental) && (out is NoLyrics <==> !raw.instrumental),
{
}

/// A lookup that succeeds is told by its answer. One that fails is told as it is, but for a failure
/// with which the server says, by the status 404, that nothing was found: then there are no lyrics.
pub proof fn law_told_at_end<E>(
    raw: RawResponse,
    e: RequestErrorView<E>,
    strip: spec_fn(Seq<char>) -> Seq<char>,
)
    ensures
        told_at_end(Ok::<RawResponse, RequestErrorView<E>>(raw), strip) == Ok::<
            ResponseView,
            RequestErrorView<E>,
        >(told(raw, strip)),
        (e matches RequestErrorView::Response { status_code, .. } && status_code == Some(404u16))
            ==> told_at_end(Err::<RawResponse, RequestErrorView<E>>(e), strip) == Ok::<
            ResponseView,
            RequestErrorView<E>,
        >(ResponseView::NoLyrics),
        !(e matches RequestErrorView::Response { status_code, .. } && status_code == Some(404u16))
            ==> told_at_end(Err::<RawResponse, RequestErrorView<E>>(e), strip) == Err::<
            ResponseView,
            RequestErrorView<E>,
        >(e),
{
}

/// The view of a response holds all that the response holds.
pub proof fn law_response_views<E>(
    synced: String,
    plain: String,
    response: Response,
    error: RequestError<E>,
)
    ensures
        Response::SyncedLyrics(synced, plain)@ == ResponseView::SyncedLyrics(synced@, plain@),
        Response::UnsyncedLyrics(plain)@ == ResponseView::UnsyncedLyrics(plain@),
        Response::IsInstrumental@ == ResponseView::IsInstrumental,
        Response::NoLyrics@ == ResponseView::NoLyrics,
        response_view(Ok::<Response, RequestError<E>>(response)) == Ok::<
            ResponseView,
            RequestErrorView<E>,
        >(response@),
        response_view(Err::<Response, RequestError<E>>(error)) == Err::<
            ResponseView,
            RequestErrorView<E>,
        >(error@),
{
}

/// A track is asked for by its artist, its title, its duration and, last, its album, if that is
/// named; all of them as they were given.
pub proof fn law_track_params(
    title: Seq<char>,
    album_name: Seq<char>,
    artist_name: Seq<char>,
    duration: Seq<char>,
)
    ensures
        ({
            let always = seq![
                ("artist_name"@, artist_name),
                ("track_name"@, title),
                ("duration"@, duration),
            ];
            &&& track_params(title, None, artist_name, duration) == always
            &&& track_params(title, Some(Seq::empty()), artist_name, duration) == always
            &&& album_name.len() > 0 ==> track_params(title, Some(album_name), artist_name, duration)
                == always + seq![("album_name"@, album_name)]
        }),
{
    assert(seq![
        ("artist_name"@, artist_name),
        ("track_name"@, title),
        ("duration"@, duration),
    ].push(("album_name"@, album_name)) =~= seq![
        ("artist_name"@, artist_name),
        ("track_name"@, title),
        ("duration"@, duration),
    ] + seq![("album_name"@, album_name)]);
}

} // verus!
