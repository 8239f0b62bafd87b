//! Requests to the server, and when one is sent again.

use crate::text::{law_without_trailing, trim_end_matches, without_trailing};
use vstd::prelude::*;

verus! {

/// The number of the first attempt to send a request.
pub const FIRST_ATTEMPT: u64 = 0;

/// How many times a request is sent before its failure counts.
pub const ATTEMPTS: u64 = 3;

/// How many milliseconds the first wait before another attempt takes; each later wait is longer by
/// as much.
pub const BACKOFF_MILLIS: u64 = 250;

/// How many seconds a request may take.
pub const TIMEOUT_SECS: u64 = 10;

/// The most characters of which a URL is made up to its query, or up to its fragment. Their places
/// are numbered by 32 bits, and a character takes less than sixteen bytes.
pub const URL_LIMIT: usize = 0x1000_0000;

/// A request to read from the server. In place of the URL there may be what is wrong with it.
#[derive(Debug)]
pub struct HttpRequest {
    pub url: Result<String, String>,
    pub user_agent: String,
    pub timeout_secs: u64,
}

/// What is known of a failure of the transport.
#[derive(Clone, Copy, Debug, PartialEq, Eq, Structural)]
pub struct TransportError {
    pub connect: bool,
    pub timeout: bool,
    pub body: bool,
    pub decode: bool,
}

/// What came of sending a request, or of reading the body of the answer.
#[derive(Clone, Copy, Debug, PartialEq, Eq, Structural)]
pub enum HttpEvent {
    Answered { status: u16 },
    SendFailed(TransportError),
    BodyFailed(TransportError),
}

/// What is done next.
#[derive(Clone, Copy, Debug, PartialEq, Eq, Structural)]
pub enum HttpAction {
    /// Wait, then send the request again; that attempt has the given number.
    Retry { attempt: u64, delay_millis: u64 },
    /// Read the body of the answer, which is the result.
    ReadBody,
    /// The result is the answer, with no body.
    NoBody,
    /// The failure is the result.
    Fail,
}

/// Whether a status tells of a passing trouble of the server.
pub open spec fn transient_status(status: u16) -> bool {
    status == 429 || status == 502 || status == 503 || status == 504
}

/// Whether an event tells of a passing trouble.
pub open spec fn transient(event: HttpEvent) -> bool {
    match event {
        HttpEvent::Answered { status } => transient_status(status),
        HttpEvent::SendFailed(e) => e.connect || e.timeout || e.body,
        HttpEvent::BodyFailed(e) => e.body || e.decode || e.timeout,
    }
}

/// What follows an event of the given attempt, counted from `FIRST_ATTEMPT` on: a passing trouble
/// makes for another attempt, unless this was the last.
pub open spec fn reaction(attempt: u64, event: HttpEvent) -> HttpAction {
    if attempt + 1 < ATTEMPTS && transient(event) {
        HttpAction::Retry {
            attempt: (attempt + 1) as u64,
            delay_millis: (BACKOFF_MILLIS * (attempt + 1)) as u64,
        }
    } else {
        match event {
            HttpEvent::Answered { status } => if status == 404 {
                HttpAction::NoBody
            } else {
                HttpAction::ReadBody
            },
            _ => HttpAction::Fail,
        }
    }
}

/// Decides what follows an event of the given attempt.
pub fn get_json(attempt: u64, event: HttpEvent) -> (out: HttpAction)
    ensures
        out == reaction(attempt, event),
{
    let trouble = match event {
        HttpEvent::Answered { status } => status == 429 || status == 502 || status == 503 || status
            == 504,
        HttpEvent::SendFailed(e) => e.connect || e.timeout || e.body,
        HttpEvent::BodyFailed(e) => e.body || e.decode || e.timeout,
    };
    if attempt < ATTEMPTS - 1 && trouble {
        return HttpAction::Retry {
            attempt: attempt + 1,
            delay_millis: BACKOFF_MILLIS * (attempt + 1),
        };
    }
    match event {
        HttpEvent::Answered { status } => {
            if status == 404 {
                HttpAction::NoBody
            } else {
                HttpAction::ReadBody
            }
        },
        HttpEvent::SendFailed(_) => HttpAction::Fail,
        HttpEvent::BodyFailed(_) => HttpAction::Fail,
    }
}

/// The names and values of parameters as texts.
pub open spec fn param_texts(params: Seq<(String, String)>) -> Seq<(Seq<char>, Seq<char>)> {
    params.map_values(|p: (String, String)| (p.0@, p.1@))
}

/// How many characters parameters have in all.
pub open spec fn total_length(params: Seq<(Seq<char>, Seq<char>)>) -> nat
    decreases params.len(),
{
    if params.len() == 0 {
        0
    } else {
        total_length(params.drop_last()) + params.last().0.len() + params.last().1.len()
    }
}

/// What `reqwest::Url::parse_with_params` makes of an address and parameters: the URL as text, or
/// what is wrong with the address.
pub uninterp spec fn url_with_params(
    address: Seq<char>,
    params: Seq<(Seq<char>, Seq<char>)>,
) -> Result<Seq<char>, Seq<char>>;

/// A result of two strings as texts.
pub open spec fn text_result(r: Result<String, String>) -> Result<Seq<char>, Seq<char>> {
    match r {
        Ok(text) => Ok(text@),
        Err(text) => Err(text@),
    }
}

/// Whether an address is short enough for a URL. Where it has a fragment, which comes after the
/// parameters, they count as well.
pub open spec fn within_limit(address: Seq<char>, params: Seq<(Seq<char>, Seq<char>)>) -> bool {
    address.len() + (if address.contains('#') {
        total_length(params)
    } else {
        0
    }) <= URL_LIMIT
}

/// `reqwest::Url::parse_with_params`, with the URL and the error written out as text: the result
/// is a function of the address and the parameters, which is only named. It panics where what
/// stands before the query, or before a fragment, takes four gigabytes or more; `within_limit`
/// keeps from that.
#[verifier::external_body]
fn parse_with_params(address: &str, params: &Vec<(String, String)>) -> (out: Result<String, String>)
    requires
        within_limit(address@, param_texts(params@)),
    ensures
        text_result(out) == url_with_params(address@, param_texts(params@)),
{
    match reqwest::Url::parse_with_params(address, params) {
        Ok(url) => Ok(url.to_string()),
        Err(error) => Err(error.to_string()),
    }
}

/// Where on the server a request goes: the server's address, without slashes at its end, and the
/// path.
pub open spec fn address_of(instance: Seq<char>, path: Seq<char>) -> Seq<char> {
    without_trailing(instance, '/') + path
}

/// A slash at the end of the server's address makes no difference.
pub proof fn law_trailing_slash(instance: Seq<char>, path: Seq<char>)
    ensures
        address_of(instance.push('/'), path) == address_of(instance, path),
{
    assert(instance.push('/').drop_last() =~= instance);
}

/// What the application calls itself.
pub open spec fn agent_name(version: Seq<char>) -> Seq<char> {
    "LRCGET v"@ + version + " (https://github.com/tranxuanthang/lrcget)"@
}

/// What a request is made of.
pub open spec fn is_request(
    request: HttpRequest,
    instance: Seq<char>,
    path: Seq<char>,
    params: Seq<(Seq<char>, Seq<char>)>,
    version: Seq<char>,
) -> bool {
    &&& text_result(request.url) == url_with_params(address_of(instance, path), params)
    &&& request.user_agent@ == agent_name(version)
    &&& request.timeout_secs == TIMEOUT_SECS
}

/// The first parameters have no more characters than all.
proof fn lemma_total_length_take(params: Seq<(Seq<char>, Seq<char>)>, i: int)
    requires
        0 <= i <= params.len(),
    ensures
        total_length(params.take(i)) <= total_length(params),
    decreases params.len(),
{
    if i == params.len() {
        assert(params.take(i) =~= params);
    } else {
        lemma_total_length_take(params.drop_last(), i);
        assert(params.drop_last().take(i) =~= params.take(i));
    }
}

/// Whether a text holds a character.
fn holds(text: &str, wanted: char) -> (out: bool)
    ensures
        out == text@.contains(wanted),
{
    for c in it: text.chars()
        invariant
            it.seq() == text@,
            !text@.take(it.index()).contains(wanted),
    {
        if c == wanted {
            assert(text@[it.index()] == wanted);
            return true;
        }
        assert(text@.take(it.index() + 1) =~= text@.take(it.index()).push(c));
    }
    assert(text@.take(text@.len() as int) =~= text@);
    false
}

/// Whether an address is short enough for a URL with the parameters.
fn fits(address: &str, params: &Vec<(String, String)>) -> (out: bool)
    ensures
        out == within_limit(address@, param_texts(params@)),
{
    let ghost all = param_texts(params@);
    let length: usize = address.unicode_len();
    if length > URL_LIMIT {
        return false;
    }
    if !holds(address, '#') {
        return true;
    }
    let mut left: usize = URL_LIMIT - length;
    assert(all.take(0) =~= Seq::empty());
    let mut i: usize = 0;
    while i < params.len()
        invariant
            i <= params@.len(),
            all == param_texts(params@),
            address@.contains('#'),
            left == URL_LIMIT - address@.len() - total_length(all.take(i as int)),
        decreases params@.len() - i,
    {
        let name: usize = params[i].0.as_str().unicode_len();
        let value: usize = params[i].1.as_str().unicode_len();
        proof {
            assert(all.take(i + 1).drop_last() =~= all.take(i as int));
            assert(all.take(i + 1).last() == all[i as int]);
            lemma_total_length_take(all, i + 1);
        }
        if name > left || value > left - name {
            return false;
        }
        left = left - name - value;
        i += 1;
    }
    assert(all.take(all.len() as int) =~= all);
    true
}

/// Puts together a request with the given parameters to a path of the server.
pub(crate) fn build_request(
    lrclib_instance: &str,
    path: &str,
    params: &Vec<(String, String)>,
    version: &str,
) -> (out: HttpRequest)
    requires
        within_limit(address_of(lrclib_instance@, path@), param_texts(params@)),
    ensures
        is_request(out, lrclib_instance@, path@, param_texts(params@), version@),
{
    let mut user_agent = "LRCGET v".to_owned();
    user_agent.append(version);
    user_agent.append(" (https://github.com/tranxuanthang/lrcget)");
    let mut address = trim_end_matches(lrclib_instance, '/').to_owned();
    address.append(path);
    let url = parse_with_params(address.as_str(), params);
    HttpRequest { url, user_agent, timeout_secs: TIMEOUT_SECS }
}

/// Puts together a request, unless the address is too long for a URL.
pub(crate) fn try_build_request(
    lrclib_instance: &str,
    path: &str,
    params: &Vec<(String, String)>,
    version: &str,
) -> (out: Option<HttpRequest>)
    ensures
        out is Some == within_limit(address_of(lrclib_instance@, path@), param_texts(params@)),
        out matches Some(request) ==> is_request(
            request,
            lrclib_instance@,
            path@,
            param_texts(params@),
            version@,
        ),
{
    let mut address = trim_end_matches(lrclib_instance, '/').to_owned();
    address.append(path);
    if fits(address.as_str(), params) {
        Some(build_request(lrclib_instance, path, params, version))
    } else {
        None
    }
}

/// What the transport makes of one attempt: no answer, or an answer whose body can be read or not.
pub enum Attempt {
    NotAnswered(TransportError),
    Answered { status: u16, body: Result<(), TransportError> },
}

/// What comes of one attempt.
pub enum AttemptOutcome {
    Again { attempt: u64, delay_millis: u64 },
    Delivered { status: u16, with_body: bool },
    Failed,
}

/// What `get_json` makes of one attempt.
pub open spec fn attempt_outcome(number: u64, attempt: Attempt) -> AttemptOutcome {
    match attempt {
        Attempt::NotAnswered(e) => match reaction(number, HttpEvent::SendFailed(e)) {
            HttpAction::Retry { attempt, delay_millis } => AttemptOutcome::Again {
                attempt,
                delay_millis,
            },
            _ => AttemptOutcome::Failed,
        },
        Attempt::Answered { status, body } => match reaction(
            number,
            HttpEvent::Answered { status },
        ) {
            HttpAction::Retry { attempt, delay_millis } => AttemptOutcome::Again {
                attempt,
                delay_millis,
            },
            HttpAction::NoBody => AttemptOutcome::Delivered { status, with_body: false },
            HttpAction::ReadBody => match body {
                Ok(_) => AttemptOutcome::Delivered { status, with_body: true },
                Err(e) => match reaction(number, HttpEvent::BodyFailed(e)) {
                    HttpAction::Retry { attempt, delay_millis } => AttemptOutcome::Again {
                        attempt,
                        delay_millis,
                    },
                    _ => AttemptOutcome::Failed,
                },
            },
            HttpAction::Fail => AttemptOutcome::Failed,
        },
    }
}

/// Whether an attempt fails for a reason that may pass.
pub open spec fn attempt_transient(attempt: Attempt) -> bool {
    match attempt {
        Attempt::NotAnswered(e) => transient(HttpEvent::SendFailed(e)),
        Attempt::Answered { status, body } => transient_status(status) || (status != 404
            && (body matches Err(e) && transient(HttpEvent::BodyFailed(e)))),
    }
}

/// The number of the last attempt that is made, what comes of it, and how long the waits before it
/// take in all, from the attempt `number` on.
pub open spec fn fetch(attempts: spec_fn(u64) -> Attempt, number: u64) -> (
    u64,
    AttemptOutcome,
    int,
)
    decreases ATTEMPTS - number,
{
    match attempt_outcome(number, attempts(number)) {
        AttemptOutcome::Again { attempt, delay_millis } => {
            let rest = fetch(attempts, attempt);
            (rest.0, rest.1, delay_millis + rest.2)
        },
        outcome => (number, outcome, 0),
    }
}

/// However the transport behaves, a request is sent three times at most and the waits take no more
/// than three quarters of a second. It is sent again only after a failure that may pass, and one
/// that may not ends the matter. The end is always an answer or a failure.
pub proof fn law_retries(attempts: spec_fn(u64) -> Attempt)
    ensures
        ({
            let (last, outcome, waited) = fetch(attempts, FIRST_ATTEMPT);
            &&& last < 3
            &&& waited == if last == 0 {
                0int
            } else if last == 1 {
                250
            } else {
                750
            }
            &&& forall|k: u64| k < last ==> #[trigger] attempt_transient(attempts(k))
            &&& last == 2 || !attempt_transient(attempts(last))
            &&& outcome == attempt_outcome(last, attempts(last))
            &&& !(outcome is Again)
        }),
{
    reveal_with_fuel(fetch, 4);
}

/// An answer that the server has nothing is passed on at once, and its body is not read.
pub proof fn law_missing_is_final(number: u64, body: Result<(), TransportError>)
    ensures
        attempt_outcome(number, (Attempt::Answered { status: 404, body }))
            == (AttemptOutcome::Delivered { status: 404, with_body: false }),
{
}

/// A request is sent again after the first and the second attempt, if the status was 429, 502, 503
/// or 504, if it could not be sent for want of a connection, of time or of its body, or if the body
/// of the answer was broken, could not be decoded or took too long. The wait grows with the attempts.
pub proof fn law_sent_again(attempt: u64, event: HttpEvent)
    ensures
        ({
            let passing = match event {
                HttpEvent::Answered { status } => status == 429 || status == 502 || status == 503
                    || status == 504,
                HttpEvent::SendFailed(e) => e.connect || e.timeout || e.body,
                HttpEvent::BodyFailed(e) => e.body || e.decode || e.timeout,
            };
            &&& attempt == 0 && passing ==> reaction(attempt, event) == (HttpAction::Retry {
                attempt: 1,
                delay_millis: 250,
            })
            &&& attempt == 1 && passing ==> reaction(attempt, event) == (HttpAction::Retry {
                attempt: 2,
                delay_millis: 500,
            })
            &&& attempt >= 2 || !passing ==> !(reaction(attempt, event) is Retry)
        }),
{
}

/// An answer that is not asked for again is read, but for one with the status 404, which has nothing
/// to read. A failure after which the request is not sent again is the result.
pub proof fn law_taken(attempt: u64, status: u16, e: TransportError)
    ensures
        ({
            let action = reaction(attempt, HttpEvent::Answered { status });
            action is Retry || action == (if status == 404 {
                HttpAction::NoBody
            } else {
                HttpAction::ReadBody
            })
        }),
        ({
            let action = reaction(attempt, HttpEvent::SendFailed(e));
            action is Retry || action is Fail
        }),
        ({
            let action = reaction(attempt, HttpEvent::BodyFailed(e));
            action is Retry || action is Fail
        }),
        reaction(attempt, HttpEvent::Answered { status: 404 }) is NoBody,
{
}

/// A request goes to the path behind the server's address, whatever slashes end the address, with
/// the parameters; it names the application with its version and may take ten seconds.
pub proof fn law_request(
    request: HttpRequest,
    server: Seq<char>,
    slashes: Seq<char>,
    path: Seq<char>,
    params: Seq<(Seq<char>, Seq<char>)>,
    version: Seq<char>,
)
    requires
        server.len() > 0 ==> server.last() != '/',
        forall|i: int| 0 <= i < slashes.len() ==> #[trigger] slashes[i] == '/',
        is_request(request, server + slashes, path, params, version),
    ensures
        url_with_params(server + path, params) == (match request.url {
            Ok(url) => Ok::<Seq<char>, Seq<char>>(url@),
            Err(message) => Err::<Seq<char>, Seq<char>>(message@),
        }),
        request.user_agent@ == "LRCGET v"@ + version
            + " (https://github.com/tranxuanthang/lrcget)"@,
        request.timeout_secs == 10,
{
    let instance = server + slashes;
    law_without_trailing(instance, '/');
    let n = without_trailing(instance, '/').len() as int;
    if n < server.len() {
        assert(instance[server.len() - 1] == server.last());
    } else if n > server.len() {
        assert(without_trailing(instance, '/').last() == instance[n - 1]);
        assert(instance[n - 1] == slashes[n - 1 - server.len()]);
    }
    assert(without_trailing(instance, '/') =~= server);
}

/// Up to 2^28 characters of an address are admitted, with those of the parameters where the address
/// has a fragment.
pub proof fn law_limit(address: Seq<char>, params: Seq<(Seq<char>, Seq<char>)>)
    ensures
        !address.contains('#') ==> (within_limit(address, params) <==> address.len()
            <= 0x1000_0000),
        address.contains('#') ==> (within_limit(address, params) <==> address.len() + total_length(
            params,
        ) <= 0x1000_0000),
{
}

/// Parameters are counted with their names and values.
pub proof fn law_total_length(
    params: Seq<(Seq<char>, Seq<char>)>,
    name: Seq<char>,
    value: Seq<char>,
)
    ensures
        total_length(Seq::empty()) == 0,
        total_length(params.push((name, value))) == total_length(params) + name.len() + value.len(),
{
    assert(params.push((name, value)).drop_last() =~= params);
}

/// The texts of parameters are those of their names and values, in order.
pub proof fn law_param_texts(params: Seq<(String, String)>)
    ensures
        param_texts(params).len() == params.len(),
        forall|i: int|
            0 <= i < params.len() ==> #[trigger] param_texts(params)[i] == (
                params[i].0@,
                params[i].1@,
            ),
{
}

} // verus!
