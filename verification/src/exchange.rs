//! What both clients do around an exchange with the registry: who asks, how
//! long a request has to wait, and what a reply means.
use reqwest::header::InvalidHeaderValue;
use reqwest::Error as HttpError;
use vstd::prelude::*;
use vstd::utf8::{encode_scalar, encode_utf8};

use crate::error::{Error, NotFoundError, PermissionDeniedError};

verus! {

// ── Who asks ────────────────────────────────────────────────────────────────

/// The error of a text that no header can hold; it is carried along.
#[verifier::external_type_specification]
#[verifier::external_body]
pub struct ExInvalidHeaderValue(InvalidHeaderValue);

/// A byte that may stand in a header: no control character but the tab.
pub open spec fn header_byte(byte: u8) -> bool {
    byte >= 32 && byte != 127 || byte == 9
}

/// A text that a header can hold.
pub open spec fn header_text(text: Seq<char>) -> bool {
    forall|i: int| 0 <= i < encode_utf8(text).len() ==> header_byte(#[trigger] encode_utf8(text)[i])
}

/// `reqwest::header::HeaderValue::from_str`: the value of the text's bytes, if
/// each of them may stand in a header.
#[verifier::external_body]
pub(crate) fn header_value(text: &str) -> (value: Result<Vec<u8>, InvalidHeaderValue>)
    ensures
        value is Ok == header_text(text@),
        value is Ok ==> (value->Ok_0)@ == encode_utf8(text@),
{
    reqwest::header::HeaderValue::from_str(text).map(|value| value.as_bytes().to_vec())
}

/// A text with a control character other than the tab, such as a line feed, is
/// never a header's.
pub proof fn law_control_characters_are_refused(text: Seq<char>, i: int)
    requires
        0 <= i < text.len(),
        (text[i] as u32) < 32 && text[i] as u32 != 9 || text[i] as u32 == 127,
    ensures
        !header_text(text),
    decreases text.len(),
{
    let scalar = text[0] as u32;
    let bytes = encode_scalar(scalar);
    let rest = text.drop_first();
    assert(encode_utf8(text) =~= bytes + encode_utf8(rest));
    if i == 0 {
        assert((scalar & 0x7F) as u8 == scalar as u8) by (bit_vector)
            requires
                scalar <= 127,
        ;
        assert(bytes[0] == scalar as u8);
        assert(encode_utf8(text)[0] == bytes[0]);
        assert(!header_byte(encode_utf8(text)[0]));
    } else {
        law_control_characters_are_refused(rest, i - 1);
        let k = choose|k: int|
            0 <= k < encode_utf8(rest).len() && !header_byte(#[trigger] encode_utf8(rest)[k]);
        assert(encode_utf8(text)[bytes.len() + k] == encode_utf8(rest)[k]);
        assert(!header_byte(encode_utf8(text)[bytes.len() + k]));
    }
}

/// A text without control characters but tabs is a header's.
pub proof fn law_other_characters_are_accepted(text: Seq<char>)
    requires
        forall|i: int|
            0 <= i < text.len() ==> ((#[trigger] text[i]) as u32 >= 32 && text[i] as u32 != 127)
                || text[i] as u32 == 9,
    ensures
        header_text(text),
    decreases text.len(),
{
    if text.len() > 0 {
        let rest = text.drop_first();
        let scalar = text[0] as u32;
        let bytes = encode_scalar(scalar);
        assert forall|i: int| 0 <= i < rest.len() implies ((#[trigger] rest[i]) as u32 >= 32
            && rest[i] as u32 != 127) || rest[i] as u32 == 9 by {
            assert(rest[i] == text[i + 1]);
        }
        law_other_characters_are_accepted(rest);
        assert(encode_utf8(text) =~= bytes + encode_utf8(rest));
        assert(forall|i: int| 0 <= i < bytes.len() ==> header_byte(#[trigger] bytes[i])) by {
            assert((0xC0 | ((scalar >> 6) & 0x1F) as u8) >= 128) by (bit_vector);
            assert((0xE0 | ((scalar >> 12) & 0x0F) as u8) >= 128) by (bit_vector);
            assert((0xF0 | ((scalar >> 18) & 0x7) as u8) >= 128) by (bit_vector);
            assert((0x80 | (scalar & 0x3F) as u8) >= 128) by (bit_vector);
            assert((0x80 | ((scalar >> 6) & 0x3F) as u8) >= 128) by (bit_vector);
            assert((0x80 | ((scalar >> 12) & 0x3F) as u8) >= 128) by (bit_vector);
            assert(scalar <= 127 ==> (scalar & 0x7F) as u8 == scalar as u8) by (bit_vector);
        }
        assert forall|i: int| 0 <= i < encode_utf8(text).len() implies header_byte(
            #[trigger] encode_utf8(text)[i],
        ) by {
            if i < bytes.len() {
                assert(encode_utf8(text)[i] == bytes[i]);
            } else {
                assert(encode_utf8(text)[i] == encode_utf8(rest)[i - bytes.len()]);
            }
        }
    }
}

// ── When a request may be sent ──────────────────────────────────────────────

/// Keeps requests apart: no two are sent within the interval `rate_limit`.
/// Times are nanoseconds on a clock that never goes back.
pub struct RateLimiter {
    rate_limit: u128,
    last_request_time: Option<u128>,
}

/// The state of a [`RateLimiter`].
pub struct RateLimiterView {
    /// The least time from one request to the next.
    pub rate_limit: u128,
    /// When the last request was sent.
    pub last: Option<u128>,
}

/// How long a request has to wait at the time `now`.
pub open spec fn delay_at(state: RateLimiterView, now: u128) -> int {
    match state.last {
        Some(last) => {
            let elapsed = if now < last {
                0
            } else {
                now - last
            };
            if elapsed < state.rate_limit {
                state.rate_limit - elapsed
            } else {
                0
            }
        },
        None => 0,
    }
}

impl View for RateLimiter {
    type V = RateLimiterView;

    closed spec fn view(&self) -> RateLimiterView {
        RateLimiterView { rate_limit: self.rate_limit, last: self.last_request_time }
    }
}

impl RateLimiter {
    /// A limiter under which nothing was sent yet.
    pub fn new(rate_limit: u128) -> (limiter: Self)
        ensures
            limiter@ == (RateLimiterView { rate_limit, last: None }),
    {
        RateLimiter { rate_limit, last_request_time: None }
    }

    /// How long a request has to wait at the time `now`.
    pub fn delay(&self, now: u128) -> (wait: u128)
        ensures
            wait == delay_at(self@, now),
    {
        match self.last_request_time {
            Some(last) => {
                let elapsed: u128 = if now < last {
                    0
                } else {
                    now - last
                };
                if elapsed < self.rate_limit {
                    self.rate_limit - elapsed
                } else {
                    0
                }
            },
            None => 0,
        }
    }

    /// Note that a request is sent at the time `start`.
    pub fn record(&mut self, start: u128)
        ensures
            final(self)@ == (RateLimiterView { last: Some(start), ..old(self)@ }),
    {
        self.last_request_time = Some(start);
    }
}

/// A request: when its turn came, and when it was sent.
pub struct RequestTimes {
    pub asked: u128,
    pub sent: u128,
}

/// A run of requests under a limiter: each asks, once the one before was sent,
/// how long it has to wait, is sent no sooner than that, and is noted.
pub open spec fn run_from(state: RateLimiterView, requests: Seq<RequestTimes>) -> bool
    decreases requests.len(),
{
    requests.len() > 0 ==> {
        let first = requests[0];
        &&& state.last matches Some(last) ==> last <= first.asked
        &&& first.asked + delay_at(state, first.asked) <= first.sent
        &&& run_from(RateLimiterView { last: Some(first.sent), ..state }, requests.drop_first())
    }
}

/// At most one request is sent per interval: in any run of requests each is
/// sent at least the interval after the one before, and so any two are at least
/// as many intervals apart as there are requests from the one to the other.
pub proof fn law_at_most_one_request_per_interval(
    state: RateLimiterView,
    requests: Seq<RequestTimes>,
    i: int,
    j: int,
)
    requires
        run_from(state, requests),
        0 <= i <= j < requests.len(),
    ensures
        requests[j].sent - requests[i].sent >= (j - i) * state.rate_limit,
    decreases requests.len(), j,
{
    if i > 0 {
        law_at_most_one_request_per_interval(
            RateLimiterView { last: Some(requests[0].sent), ..state },
            requests.drop_first(),
            i - 1,
            j - 1,
        );
    } else if j > 0 {
        let rest = requests.drop_first();
        let next = RateLimiterView { last: Some(requests[0].sent), ..state };
        law_at_most_one_request_per_interval(next, rest, 0, j - 1);
        assert(rest[0] == requests[1]);
        assert(requests[1].sent - requests[0].sent >= state.rate_limit);
        let limit = state.rate_limit as int;
        assert((j - 1) * limit + limit == j * limit) by (nonlinear_arith);
    } else {
        assert(0 * (state.rate_limit as int) == 0);
    }
}

/// A request waits no longer than it has to: the first is sent at once, one that
/// comes when the interval has passed since the last is sent at once, and one
/// that comes sooner is sent just when the interval has passed. On a clock that
/// went back the whole interval is waited.
pub proof fn law_shortest_delay(state: RateLimiterView, now: u128)
    ensures
        state.last is None ==> delay_at(state, now) == 0,
        state.last matches Some(last) ==> {
            &&& now >= last + state.rate_limit ==> delay_at(state, now) == 0
            &&& last <= now < last + state.rate_limit ==> now + delay_at(state, now) == last
                + state.rate_limit
            &&& now < last ==> delay_at(state, now) == state.rate_limit
        },
{
}

/// An interval of zero keeps no request waiting.
pub proof fn law_no_interval_no_delay(state: RateLimiterView, now: u128)
    requires
        state.rate_limit == 0,
    ensures
        delay_at(state, now) == 0,
{
}

// ── What a reply means ──────────────────────────────────────────────────────

/// What has to be done about the status of a reply.
#[derive(Debug, Clone, Copy, PartialEq, Eq, Structural)]
pub enum Reply {
    /// Read the body: it is the file.
    File,
    /// There is no such file.
    Missing,
    /// Read the body: it says why the file may not be read.
    Forbidden,
    /// Report the status as an error.
    Failed,
}

/// What a status means: a success brings the file, 404 is a file that is not
/// there, 403 one that may not be read.
pub open spec fn reply_of(status: u16) -> Reply {
    if 200 <= status < 300 {
        Reply::File
    } else if status == 404 {
        Reply::Missing
    } else if status == 403 {
        Reply::Forbidden
    } else {
        Reply::Failed
    }
}

/// What has to be done about the status of a reply.
pub fn classify_status(status: u16) -> (reply: Reply)
    ensures
        reply == reply_of(status),
{
    if 200 <= status && status < 300 {
        Reply::File
    } else if status == 404 {
        Reply::Missing
    } else if status == 403 {
        Reply::Forbidden
    } else {
        Reply::Failed
    }
}

/// A status from 200 to 299 brings the file, 404 says that there is none, 403
/// that it may not be read, and any other status is an error.
pub proof fn law_reply(status: u16)
    ensures
        reply_of(status) == Reply::File <==> 200 <= status <= 299,
        reply_of(status) == Reply::Missing <==> status == 404,
        reply_of(status) == Reply::Forbidden <==> status == 403,
        reply_of(status) == Reply::Failed <==> !(200 <= status <= 299) && status != 404 && status
            != 403,
{
}

/// What came of a request once it was sent and the reply was dealt with as
/// [`classify_status`] says.
pub enum Received {
    /// No reply came.
    NoReply(HttpError),
    /// The file was there: what reading the body gave.
    File(Result<String, HttpError>),
    /// There was no such file.
    Missing,
    /// The file may not be read: what reading the body gave.
    Forbidden(Result<String, HttpError>),
    /// The status was reported as an error.
    Failed(HttpError),
}

/// What a request brings: the body of the file, or the error that says why
/// there is none. A file that is not there is not found at the URL of the
/// request, and a file that may not be read is denied for the reason that the
/// body gives; a body that cannot be read gives no reason.
pub open spec fn fetched(
    outcome: Result<String, Error>,
    url: Seq<char>,
    received: Received,
) -> bool {
    match received {
        Received::NoReply(error) => outcome == Err::<String, Error>(Error::Http(error)),
        Received::File(Ok(body)) => outcome == Ok::<String, Error>(body),
        Received::File(Err(error)) => outcome == Err::<String, Error>(Error::Http(error)),
        Received::Missing => outcome matches Err(Error::NotFound(error)) && error.url@ == url,
        Received::Forbidden(Ok(body)) => outcome matches Err(Error::PermissionDenied(error))
            && error.reason == body,
        Received::Forbidden(Err(_)) => outcome matches Err(Error::PermissionDenied(error))
            && error.reason@ == Seq::<char>::empty(),
        Received::Failed(error) => outcome == Err::<String, Error>(Error::Http(error)),
    }
}

/// Whether the reply with this status was dealt with as [`classify_status`] says.
pub open spec fn dealt_with(status: u16, received: Received) -> bool {
    match received {
        Received::NoReply(_) => true,
        Received::File(_) => reply_of(status) == Reply::File,
        Received::Missing => reply_of(status) == Reply::Missing,
        Received::Forbidden(_) => reply_of(status) == Reply::Forbidden,
        Received::Failed(_) => reply_of(status) == Reply::Failed,
    }
}

/// The status of the reply decides what a request brings: a success the body,
/// unless it cannot be read; 404 a file that is not found at the URL of the
/// request; 403 a denial, with the body for its reason; and any other status an
/// error of the HTTP library, as no reply at all does.
pub proof fn law_status_decides(
    outcome: Result<String, Error>,
    url: Seq<char>,
    status: u16,
    received: Received,
)
    requires
        dealt_with(status, received),
        fetched(outcome, url, received),
    ensures
        outcome is Ok ==> 200 <= status < 300,
        received is NoReply ==> (outcome matches Err(Error::Http(error)) && received
            == Received::NoReply(error)),
        !(received is NoReply) && 200 <= status < 300 ==> match received {
            Received::File(Ok(body)) => outcome == Ok::<String, Error>(body),
            Received::File(Err(error)) => outcome == Err::<String, Error>(Error::Http(error)),
            _ => false,
        },
        !(received is NoReply) && status == 404 ==> (outcome matches Err(Error::NotFound(error))
            && error.url@ == url),
        !(received is NoReply) && status == 403 ==> (outcome matches Err(
            Error::PermissionDenied(error),
        ) && match received {
            Received::Forbidden(Ok(body)) => error.reason == body,
            Received::Forbidden(Err(_)) => error.reason@ == Seq::<char>::empty(),
            _ => false,
        }),
        !(received is NoReply) && !(200 <= status < 300) && status != 404 && status != 403 ==> (
        outcome matches Err(Error::Http(error)) && received == Received::Failed(error)),
        outcome matches Err(Error::NotFound(_)) ==> status == 404,
        outcome matches Err(Error::PermissionDenied(_)) ==> status == 403,
{
}

/// What a request to `url` brings: the body of the file, or the error that says
/// why there is none.
pub fn conclude(url: &str, received: Received) -> (outcome: Result<String, Error>)
    ensures
        fetched(outcome, url@, received),
{
    match received {
        Received::NoReply(error) => Err(Error::from(error)),
        Received::File(Ok(body)) => Ok(body),
        Received::File(Err(error)) => Err(Error::from(error)),
        Received::Missing => Err(Error::NotFound(NotFoundError { url: url.to_owned() })),
        Received::Forbidden(text) => {
            let reason = match text {
                Ok(body) => body,
                Err(_) => String::new(),
            };
            Err(Error::PermissionDenied(PermissionDeniedError { reason }))
        },
        Received::Failed(error) => Err(Error::from(error)),
    }
}

} // verus!
