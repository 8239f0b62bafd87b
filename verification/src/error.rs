//! The ways in which a request can fail.

use vstd::prelude::*;

verus! {

/// An error that the server describes.
#[derive(Debug)]
pub struct ResponseError {
    pub status_code: Option<u16>,
    pub error: String,
    pub message: String,
}

/// An answer with a status that is not expected, and its body.
#[derive(Debug)]
pub struct ApiError {
    pub status_code: u16,
    pub body: String,
}

/// Why a request failed. `Other` carries a failure of the transport or of reading an answer.
#[derive(Debug)]
pub enum RequestError<E> {
    Response(ResponseError),
    Api(ApiError),
    InvalidUrl(String),
    Other(E),
}

/// `RequestError` with texts for its strings.
pub enum RequestErrorView<E> {
    Response { status_code: Option<u16>, error: Seq<char>, message: Seq<char> },
    Api { status: u16, body: Seq<char> },
    InvalidUrl(Seq<char>),
    Other(E),
}

impl<E> View for RequestError<E> {
    type V = RequestErrorView<E>;

    open spec fn view(&self) -> RequestErrorView<E> {
        match self {
            RequestError::Response(e) => RequestErrorView::Response {
                status_code: e.status_code,
                error: e.error@,
                message: e.message@,
            },
            RequestError::Api(e) => RequestErrorView::Api {
                status: e.status_code,
                body: e.body@,
            },
            RequestError::InvalidUrl(message) => RequestErrorView::InvalidUrl(message@),
            RequestError::Other(e) => RequestErrorView::Other(*e),
        }
    }
}

/// A result with texts for the strings of its error.
pub open spec fn result_view<T, E>(r: Result<T, RequestError<E>>) -> Result<T, RequestErrorView<E>> {
    match r {
        Ok(value) => Ok(value),
        Err(e) => Err(e@),
    }
}

/// The error that says that a track has no lyrics.
pub open spec fn no_lyrics_error<E>() -> RequestErrorView<E> {
    RequestErrorView::Response {
        status_code: Some(404u16),
        error: "NotFound"@,
        message: "There is no lyrics for this track"@,
    }
}

/// Whether an error says that nothing was found.
pub open spec fn says_not_found<E>(e: RequestErrorView<E>) -> bool {
    e matches RequestErrorView::Response { status_code, .. } && status_code == Some(404u16)
}

impl ResponseError {
    /// The error that says that a track has no lyrics.
    pub fn no_lyrics() -> (out: ResponseError)
        ensures
            out.status_code == Some(404u16),
            out.error@ == "NotFound"@,
            out.message@ == "There is no lyrics for this track"@,
    {
        ResponseError {
            status_code: Some(404),
            error: "NotFound".to_owned(),
            message: "There is no lyrics for this track".to_owned(),
        }
    }

    /// The error as it is shown to a user.
    pub fn describe(&self) -> (out: String)
        ensures
            out@ == self.error@ + ": "@ + self.message@,
    {
        let mut out = self.error.clone();
        out.append(": ");
        out.append(self.message.as_str());
        out
    }
}

/// Whether an error says that nothing was found.
pub fn is_not_found<E>(error: &RequestError<E>) -> (out: bool)
    ensures
        out == says_not_found(error@),
{
    match error {
        RequestError::Response(e) => match e.status_code {
            Some(code) => code == 404,
            None => false,
        },
        _ => false,
    }
}

/// The view of an error holds all that the error holds.
pub proof fn law_error_views<T, E>(
    response: ResponseError,
    api: ApiError,
    message: String,
    other: E,
    value: T,
    error: RequestError<E>,
)
    ensures
        RequestError::<E>::Response(response)@ == (RequestErrorView::<E>::Response {
            status_code: response.status_code,
            error: response.error@,
            message: response.message@,
        }),
        RequestError::<E>::Api(api)@ == (RequestErrorView::<E>::Api {
            status: api.status_code,
            body: api.body@,
        }),
        RequestError::<E>::InvalidUrl(message)@ == RequestErrorView::<E>::InvalidUrl(message@),
        RequestError::Other(other)@ == RequestErrorView::Other(other),
        result_view(Ok::<T, RequestError<E>>(value)) == Ok::<T, RequestErrorView<E>>(value),
        result_view(Err::<T, RequestError<E>>(error)) == Err::<T, RequestErrorView<E>>(error@),
{
}

/// Of all errors those say that nothing was found that the server described with the status 404, and
/// the error for a track without lyrics is one of them.
pub proof fn law_not_found<E>(
    status_code: Option<u16>,
    error: Seq<char>,
    message: Seq<char>,
    status: u16,
    other: E,
)
    ensures
        says_not_found(RequestErrorView::<E>::Response { status_code, error, message })
            <==> status_code == Some(404u16),
        !says_not_found(RequestErrorView::<E>::Api { status, body: message }),
        !says_not_found(RequestErrorView::<E>::InvalidUrl(message)),
        !says_not_found(RequestErrorView::Other(other)),
        no_lyrics_error::<E>() == (RequestErrorView::<E>::Response {
            status_code: Some(404u16),
            error: "NotFound"@,
            message: "There is no lyrics for this track"@,
        }),
{
}

} // verus!
