//! Searching the server for tracks.

use crate::duration::MeasuredDuration;
use crate::error::{result_view, ApiError, RequestError, RequestErrorView};
use crate::http::{
    address_of, build_request, is_request, param_texts, try_build_request, within_limit,
    HttpRequest,
};
use vstd::prelude::*;

verus! {

/// A track that a search found.
#[derive(Debug)]
pub struct SearchItem {
    pub id: i64,
    pub name: Option<String>,
    pub artist_name: Option<String>,
    pub album_name: Option<String>,
    pub duration: Option<MeasuredDuration>,
    pub instrumental: bool,
    pub plain_lyrics: Option<String>,
    pub synced_lyrics: Option<String>,
    pub lyricsfile: Option<String>,
}

/// The tracks that a search found, in the server's order.
#[derive(Debug)]
pub struct Response(pub Vec<SearchItem>);

impl Response {
    /// The tracks themselves.
    pub fn into_items(self) -> (items: Vec<SearchItem>)
        ensures
            items == self.0,
    {
        self.0
    }
}

/// One parameter; none if its value is empty.
pub open spec fn given(name: Seq<char>, value: Seq<char>) -> Seq<(Seq<char>, Seq<char>)> {
    if value.len() > 0 {
        seq![(name, value)]
    } else {
        Seq::empty()
    }
}

/// The parameters of a search. What is empty is left out.
pub open spec fn search_params(
    title: Seq<char>,
    album_name: Seq<char>,
    artist_name: Seq<char>,
    q: Seq<char>,
) -> Seq<(Seq<char>, Seq<char>)> {
    given("track_name"@, title) + given("artist_name"@, artist_name) + given(
        "album_name"@,
        album_name,
    ) + given("q"@, q)
}

/// No parameter of a search is empty, and each text that is not empty is sent.
pub proof fn law_search_params(
    title: Seq<char>,
    album_name: Seq<char>,
    artist_name: Seq<char>,
    q: Seq<char>,
)
    ensures
        ({
            let params = search_params(title, album_name, artist_name, q);
            &&& forall|i: int| 0 <= i < params.len() ==> #[trigger] params[i].1.len() > 0
            &&& params.contains(("track_name"@, title)) == (title.len() > 0)
            &&& params.contains(("artist_name"@, artist_name)) == (artist_name.len() > 0)
            &&& params.contains(("album_name"@, album_name)) == (album_name.len() > 0)
            &&& params.contains(("q"@, q)) == (q.len() > 0)
        }),
{
    let a = given("track_name"@, title);
    let b = given("artist_name"@, artist_name);
    let c = given("album_name"@, album_name);
    let d = given("q"@, q);
    let params = a + b + c + d;
    assert forall|i: int| 0 <= i < params.len() implies #[trigger] params[i].1.len() > 0 by {
        assert(a.contains(params[i]) || b.contains(params[i]) || c.contains(params[i])
            || d.contains(params[i]));
    }
    if title.len() > 0 {
        assert(params[0] == ("track_name"@, title));
    }
    if artist_name.len() > 0 {
        assert(params[a.len() as int] == ("artist_name"@, artist_name));
    }
    if album_name.len() > 0 {
        assert(params[(a + b).len() as int] == ("album_name"@, album_name));
    }
    if q.len() > 0 {
        assert(params[(a + b + c).len() as int] == ("q"@, q));
    }
}

/// Adds a parameter, unless its value is empty.
fn push_param(params: &mut Vec<(String, String)>, name: &str, value: &str)
    ensures
        param_texts(final(params)@) == param_texts(old(params)@) + given(name@, value@),
{
    if !value.is_empty() {
        params.push((name.to_owned(), value.to_owned()));
    }
    assert(param_texts(params@) =~= param_texts(old(params)@) + given(name@, value@));
}

/// The parameters of a search.
fn write_params(title: &str, album_name: &str, artist_name: &str, q: &str) -> (out: Vec<
    (String, String),
>)
    ensures
        param_texts(out@) == search_params(title@, album_name@, artist_name@, q@),
{
    let mut params: Vec<(String, String)> = Vec::new();
    push_param(&mut params, "track_name", title);
    push_param(&mut params, "artist_name", artist_name);
    push_param(&mut params, "album_name", album_name);
    push_param(&mut params, "q", q);
    assert(param_texts(params@) =~= search_params(title@, album_name@, artist_name@, q@));
    params
}

/// Puts together a search for tracks. `version` is the application's.
pub fn request(
    title: &str,
    album_name: &str,
    artist_name: &str,
    q: &str,
    lrclib_instance: &str,
    version: &str,
) -> (out: HttpRequest)
    requires
        within_limit(
            address_of(lrclib_instance@, "/api/search"@),
            search_params(title@, album_name@, artist_name@, q@),
        ),
    ensures
        is_request(
            out,
            lrclib_instance@,
            "/api/search"@,
            search_params(title@, album_name@, artist_name@, q@),
            version@,
        ),
{
    let params = write_params(title, album_name, artist_name, q);
    build_request(lrclib_instance, "/api/search", &params, version)
}

/// Puts together a search for tracks, unless the server's address is too long for a URL.
pub fn try_request(
    title: &str,
    album_name: &str,
    artist_name: &str,
    q: &str,
    lrclib_instance: &str,
    version: &str,
) -> (out: Option<HttpRequest>)
    ensures
        out is Some == within_limit(
            address_of(lrclib_instance@, "/api/search"@),
            search_params(title@, album_name@, artist_name@, q@),
        ),
        out matches Some(request) ==> is_request(
            request,
            lrclib_instance@,
            "/api/search"@,
            search_params(title@, album_name@, artist_name@, q@),
            version@,
        ),
{
    let params = write_params(title, album_name, artist_name, q);
    try_build_request(lrclib_instance, "/api/search", &params, version)
}

/// What an answer to a search means.
pub open spec fn search_answer<E>(
    status: u16,
    parsed: Result<Response, E>,
    body: Seq<char>,
) -> Result<Response, RequestErrorView<E>> {
    if status == 200 {
        match parsed {
            Ok(response) => Ok(response),
            Err(e) => Err(RequestErrorView::Other(e)),
        }
    } else {
        Err(RequestErrorView::Api { status, body })
    }
}

/// Reads the answer to a search. `parsed` is what its body was read as.
pub fn read_answer<E>(status: u16, parsed: Result<Response, E>, body: String) -> (out: Result<
    Response,
    RequestError<E>,
>)
    ensures
        result_view(out) == search_answer(status, parsed, body@),
        status == 200 ==> (parsed matches Ok(response) ==> out == Ok::<Response, RequestError<E>>(
            response,
        )),
        status == 200 ==> (parsed matches Err(e) ==> out == Err::<Response, RequestError<E>>(
            RequestError::Other(e),
        )),
        status != 200 ==> out == Err::<Response, RequestError<E>>(
            RequestError::Api(ApiError { status_code: status, body }),
        ),
{
    if status == 200 {
        match parsed {
            Ok(response) => Ok(response),
            Err(e) => Err(RequestError::Other(e)),
        }
    } else {
        Err(RequestError::Api(ApiError { status_code: status, body }))
    }
}

/// The answer to a search is passed on with all its tracks if its status is 200 and it could be read,
/// however many they are, and never otherwise.
pub proof fn law_tracks_passed_on<E>(
    status: u16,
    parsed: Result<Response, E>,
    body: Seq<char>,
    response: Response,
)
    ensures
        search_answer(status, parsed, body) == Ok::<Response, RequestErrorView<E>>(response)
            <==> status == 200 && parsed == Ok::<Response, E>(response),
{
}

/// A search fails with the status and the body if and only if the status is not 200, and with the
/// cause if the answer could not be read.
pub proof fn law_search_refused<E>(status: u16, parsed: Result<Response, E>, body: Seq<char>)
    ensures
        search_answer(status, parsed, body) == Err::<Response, RequestErrorView<E>>(
            RequestErrorView::Api { status, body },
        ) <==> status != 200,
        status == 200 ==> (parsed matches Err(e) ==> search_answer(status, parsed, body) == Err::<
            Response,
            RequestErrorView<E>,
        >(RequestErrorView::Other(e))),
{
}

/// The parameters of a search come in one order, title, artist, album and text, whichever of them are
/// left out: a search for less sends what a search for all sends, without what is missing.
pub proof fn law_search_order(
    title: Seq<char>,
    album_name: Seq<char>,
    artist_name: Seq<char>,
    q: Seq<char>,
)
    ensures
        ({
            let none = Seq::<char>::empty();
            let a = search_params(title, none, none, none);
            let b = search_params(none, none, artist_name, none);
            let c = search_params(none, album_name, none, none);
            let d = search_params(none, none, none, q);
            &&& search_params(title, album_name, artist_name, q) == a + b + c + d
            &&& title.len() > 0 ==> a == seq![("track_name"@, title)]
            &&& artist_name.len() > 0 ==> b == seq![("artist_name"@, artist_name)]
            &&& album_name.len() > 0 ==> c == seq![("album_name"@, album_name)]
            &&& q.len() > 0 ==> d == seq![("q"@, q)]
            &&& search_params(none, none, none, none).len() == 0
        }),
{
    let none = Seq::<char>::empty();
    let a = search_params(title, none, none, none);
    let b = search_params(none, none, artist_name, none);
    let c = search_params(none, album_name, none, none);
    let d = search_params(none, none, none, q);
    assert(a =~= given("track_name"@, title));
    assert(b =~= given("artist_name"@, artist_name));
    assert(c =~= given("album_name"@, album_name));
    assert(d =~= given("q"@, q));
}

} // verus!
