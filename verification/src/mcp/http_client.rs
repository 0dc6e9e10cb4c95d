//! Requests and responses of the streamable HTTP transport.
//!
//! The transport hides why a connection failed, so the client keeps the first
//! failing status that it sees.
use super::headers::Header;
use super::sse::EVENT_STREAM;
use crate::text::numerals::numeral;
use crate::text::search::starts_with;
use vstd::prelude::*;

verus! {

/// The content type of a JSON body.
pub const JSON_BODY: &'static str = "application/json";

/// The content types that a client takes.
pub const ACCEPTED_BODIES: &'static str = "application/json, text/event-stream";

/// The header that carries the session's id.
pub const HEADER_SESSION_ID: &'static str = "Mcp-Session-Id";

/// The header that carries the id of the last event seen.
pub const HEADER_LAST_EVENT_ID: &'static str = "Last-Event-Id";

/// What stands before a status in the reason for a failure.
pub const HTTP_STATUS_MARKER: &'static str = "HTTP status: ";

// ---------------------------------------------------------------------------
// Statuses
// ---------------------------------------------------------------------------

/// The status of a response.
#[derive(Debug, Clone, Copy, PartialEq, Eq)]
pub struct HttpStatus {
    code: u16,
}

/// The text that a status is shown as, its reason included.
pub uninterp spec fn status_text(code: u16) -> Seq<char>;

/// The text that a status is shown as, by `reqwest::StatusCode`. Every code
/// from 100 to 999 is a status there, and its text begins with the code; what
/// reason stands behind it is left to that type.
#[verifier::external_body]
fn show_status(code: u16) -> (r: String)
    requires
        100 <= code <= 999,
    ensures
        r@ == status_text(code),
        (numeral(code as nat) + " "@).is_prefix_of(r@),
{
    reqwest::StatusCode::from_u16(code).map(|status| status.to_string()).unwrap_or_default()
}

impl HttpStatus {
    #[verifier::type_invariant]
    spec fn in_range(self) -> bool {
        100 <= self.code <= 999
    }

    /// The code of the status.
    pub closed spec fn number(self) -> u16 {
        self.code
    }

    /// The status of a code, where it is one.
    pub fn new(code: u16) -> (r: Option<HttpStatus>)
        ensures
            match r {
                Some(status) => 100 <= code <= 999 && status.number() == code,
                None => !(100 <= code <= 999),
            },
    {
        if 100 <= code && code <= 999 {
            Some(HttpStatus { code })
        } else {
            None
        }
    }

    /// The code of the status.
    pub fn code(self) -> (r: u16)
        ensures
            r == self.number(),
    {
        self.code
    }

    /// Whether the request succeeded.
    pub open spec fn succeeded(self) -> bool {
        200 <= self.number() <= 299
    }

    /// Whether the client or the server failed.
    pub open spec fn failed(self) -> bool {
        400 <= self.number() <= 599
    }

    /// Whether the request succeeded.
    pub fn is_success(self) -> (r: bool)
        ensures
            r == self.succeeded(),
    {
        200 <= self.code && self.code <= 299
    }

    /// Whether the client or the server failed.
    pub fn is_failure(self) -> (r: bool)
        ensures
            r == self.failed(),
    {
        400 <= self.code && self.code <= 599
    }

    /// The text that the status is shown as.
    pub fn show(self) -> (r: String)
        ensures
            r@ == status_text(self.number()),
            (numeral(self.number() as nat) + " "@).is_prefix_of(r@),
    {
        proof {
            use_type_invariant(&self);
        }
        show_status(self.code)
    }
}

// ---------------------------------------------------------------------------
// Responses
// ---------------------------------------------------------------------------

/// What the client reads of a response before its body.
#[derive(Debug)]
pub struct HttpReply {
    pub status: HttpStatus,
    pub content_type: Option<String>,
    /// The session's id, where the response carries one.
    pub session_id: Option<String>,
}

/// Why a request came to nothing.
#[derive(Debug)]
pub enum StreamableHttpError {
    /// The response is a failure.
    Status(HttpStatus),
    /// The server has no stream to read; no failure of the connection.
    ServerDoesNotSupportSse,
    ServerDoesNotSupportDeleteSession,
    /// The body is of another type; the type, where the response has one.
    UnexpectedContentType(Option<String>),
}

/// How a posted message was answered.
#[derive(Debug)]
#[allow(inconsistent_fields)]
pub enum PostReply {
    /// Taken, with nothing to read.
    Accepted,
    /// A JSON body is to be read.
    Json { session_id: Option<String> },
    /// A stream of events is to be read.
    Sse { session_id: Option<String> },
}

/// The kinds of body that a response can have.
pub enum Body {
    Json,
    Events,
    Other,
}

impl HttpReply {
    /// The kind of body that the content type announces.
    pub open spec fn body(self) -> Body {
        match self.content_type {
            Some(content_type) => if JSON_BODY@.is_prefix_of(content_type@) {
                Body::Json
            } else if EVENT_STREAM@.is_prefix_of(content_type@) {
                Body::Events
            } else {
                Body::Other
            },
            None => Body::Other,
        }
    }
}

/// Whether a content type begins as the given one.
fn is_type(content_type: &Option<String>, name: &str) -> (r: bool)
    ensures
        r == (content_type matches Some(t) && name@.is_prefix_of(t@)),
{
    match content_type {
        Some(t) => starts_with(t, name),
        None => false,
    }
}

/// The client side of the transport: the first failing status it has seen.
#[derive(Debug)]
pub struct CustomHttpClient {
    first_error: Option<String>,
}

/// The reason that is kept after a response: the one kept before, or the
/// status of the response where that is no success.
pub open spec fn reason_after(kept: Option<Seq<char>>, status: HttpStatus) -> Option<Seq<char>> {
    match kept {
        Some(reason) => Some(reason),
        None => if status.succeeded() {
            None
        } else {
            Some(HTTP_STATUS_MARKER@ + status_text(status.number()))
        },
    }
}

/// The reason that is kept after several responses.
pub open spec fn reason_after_all(
    kept: Option<Seq<char>>,
    statuses: Seq<HttpStatus>,
) -> Option<Seq<char>>
    decreases statuses.len(),
{
    if statuses.len() == 0 {
        kept
    } else {
        reason_after(reason_after_all(kept, statuses.drop_last()), statuses.last())
    }
}

impl CustomHttpClient {
    /// The reason that is kept.
    pub closed spec fn reason(self) -> Option<Seq<char>> {
        match self.first_error {
            Some(reason) => Some(reason@),
            None => None,
        }
    }

    /// A client that has seen no response.
    pub fn new() -> (r: CustomHttpClient)
        ensures
            r.reason() is None,
    {
        CustomHttpClient { first_error: None }
    }

    /// The first failing status that was seen.
    pub fn first_error(&self) -> (r: Option<&String>)
        ensures
            match r {
                Some(reason) => self.reason() == Some(reason@),
                None => self.reason() is None,
            },
    {
        match &self.first_error {
            Some(reason) => Some(reason),
            None => None,
        }
    }

    /// Takes the first failing status out.
    pub fn take_first_error(&mut self) -> (r: Option<String>)
        ensures
            match r {
                Some(reason) => old(self).reason() == Some(reason@),
                None => old(self).reason() is None,
            },
            final(self).reason() is None,
    {
        let reason = self.first_error.take();
        reason
    }

    /// Keeps a status, shown as `shown`, where it is the first that is no
    /// success.
    pub fn keep_status(&mut self, status: HttpStatus, shown: String)
        ensures
            final(self).reason() == match old(self).reason() {
                Some(reason) => Some(reason),
                None => if status.succeeded() {
                    None
                } else {
                    Some(HTTP_STATUS_MARKER@ + shown@)
                },
            },
    {
        if !status.is_success() && self.first_error.is_none() {
            let mut reason = HTTP_STATUS_MARKER.to_owned();
            reason.append(&shown);
            self.first_error = Some(reason);
        }
    }

    /// Keeps the status of a response where it is the first that is no
    /// success.
    pub fn record_http_status(&mut self, status: HttpStatus)
        ensures
            final(self).reason() == reason_after(old(self).reason(), status),
            old(self).reason() is None && !status.succeeded() ==> (HTTP_STATUS_MARKER@ + (numeral(
                status.number() as nat,
            ) + " "@)).is_prefix_of(final(self).reason()->0),
    {
        let shown = status.show();
        let ghost text = shown@;
        self.keep_status(status, shown);
        proof {
            let code = numeral(status.number() as nat) + " "@;
            assert((HTTP_STATUS_MARKER@ + text).take((HTTP_STATUS_MARKER@ + code).len() as int)
                =~= HTTP_STATUS_MARKER@ + text.take(code.len() as int));
            assert(text.take(code.len() as int) =~= code);
        }
    }

    /// Whether the response to a request for the stream is one. A server may
    /// answer with a stream or with JSON.
    pub fn check_stream(&mut self, reply: &HttpReply) -> (r: Result<(), StreamableHttpError>)
        ensures
            final(self).reason() == if reply.status.number() == 405 {
                old(self).reason()
            } else {
                reason_after(old(self).reason(), reply.status)
            },
            match r {
                Ok(_) => !reply.status.failed() && !(reply.body() is Other),
                Err(StreamableHttpError::ServerDoesNotSupportSse) => reply.status.number() == 405,
                Err(StreamableHttpError::Status(status)) => status == reply.status
                    && reply.status.failed() && reply.status.number() != 405,
                Err(StreamableHttpError::UnexpectedContentType(content_type)) => {
                    &&& !reply.status.failed()
                    &&& reply.body() is Other
                    &&& content_type == reply.content_type
                },
                Err(StreamableHttpError::ServerDoesNotSupportDeleteSession) => false,
            },
    {
        if reply.status.code() == 405 {
            return Err(StreamableHttpError::ServerDoesNotSupportSse);
        }
        self.record_http_status(reply.status);
        if reply.status.is_failure() {
            return Err(StreamableHttpError::Status(reply.status));
        }
        if is_type(&reply.content_type, EVENT_STREAM) || is_type(&reply.content_type, JSON_BODY) {
            Ok(())
        } else {
            Err(StreamableHttpError::UnexpectedContentType(reply.content_type.clone()))
        }
    }

    /// Whether the response to a request to end the session says that it
    /// ended. Such a response leaves no reason behind.
    pub fn check_deleted(&self, reply: &HttpReply) -> (r: Result<(), StreamableHttpError>)
        ensures
            match r {
                Ok(_) => !reply.status.failed(),
                Err(StreamableHttpError::ServerDoesNotSupportDeleteSession) => {
                    reply.status.number() == 405
                },
                Err(StreamableHttpError::Status(status)) => status == reply.status
                    && reply.status.failed() && reply.status.number() != 405,
                Err(_) => false,
            },
    {
        if reply.status.code() == 405 {
            Err(StreamableHttpError::ServerDoesNotSupportDeleteSession)
        } else if reply.status.is_failure() {
            Err(StreamableHttpError::Status(reply.status))
        } else {
            Ok(())
        }
    }

    /// How a posted message was answered. A bare acknowledgement is taken as
    /// such whatever content type it names; any other body must be JSON or a
    /// stream of events.
    pub fn check_posted(&mut self, reply: HttpReply) -> (r: Result<PostReply, StreamableHttpError>)
        ensures
            final(self).reason() == reason_after(old(self).reason(), reply.status),
            match r {
                Ok(PostReply::Accepted) => {
                    reply.status.number() == 202 || reply.status.number() == 204
                },
                Ok(PostReply::Json { session_id }) => {
                    &&& !reply.status.failed()
                    &&& reply.status.number() != 202 && reply.status.number() != 204
                    &&& reply.body() is Json
                    &&& session_id == reply.session_id
                },
                Ok(PostReply::Sse { session_id }) => {
                    &&& !reply.status.failed()
                    &&& reply.status.number() != 202 && reply.status.number() != 204
                    &&& reply.body() is Events
                    &&& session_id == reply.session_id
                },
                Err(StreamableHttpError::Status(status)) => status == reply.status
                    && reply.status.failed(),
                Err(StreamableHttpError::UnexpectedContentType(content_type)) => {
                    &&& !reply.status.failed()
                    &&& reply.status.number() != 202 && reply.status.number() != 204
                    &&& reply.body() is Other
                    &&& content_type == reply.content_type
                },
                Err(_) => false,
            },
    {
        self.record_http_status(reply.status);
        if reply.status.is_failure() {
            return Err(StreamableHttpError::Status(reply.status));
        }
        let code: u16 = reply.status.code();
        if code == 202 || code == 204 {
            return Ok(PostReply::Accepted);
        }
        if is_type(&reply.content_type, JSON_BODY) {
            Ok(PostReply::Json { session_id: reply.session_id })
        } else if is_type(&reply.content_type, EVENT_STREAM) {
            Ok(PostReply::Sse { session_id: reply.session_id })
        } else {
            Err(StreamableHttpError::UnexpectedContentType(reply.content_type))
        }
    }
}

/// The first status that is no success is the reason that is kept, whatever
/// came before it and whatever follows.
pub proof fn law_first_failure_is_kept(statuses: Seq<HttpStatus>, k: int)
    requires
        0 <= k < statuses.len(),
        !statuses[k].succeeded(),
        forall|i: int| 0 <= i < k ==> (#[trigger] statuses[i]).succeeded(),
    ensures
        reason_after_all(None, statuses) == Some(
            HTTP_STATUS_MARKER@ + status_text(statuses[k].number()),
        ),
    decreases statuses.len(),
{
    let before = statuses.drop_last();
    if k < statuses.len() - 1 {
        law_first_failure_is_kept(before, k);
    } else {
        law_successes_leave_no_reason(before);
    }
}

/// Successes leave no reason behind.
pub proof fn law_successes_leave_no_reason(statuses: Seq<HttpStatus>)
    requires
        forall|i: int| 0 <= i < statuses.len() ==> (#[trigger] statuses[i]).succeeded(),
    ensures
        reason_after_all(None, statuses) is None,
    decreases statuses.len(),
{
    if statuses.len() > 0 {
        law_successes_leave_no_reason(statuses.drop_last());
    }
}

// ---------------------------------------------------------------------------
// Requests
// ---------------------------------------------------------------------------

/// A header by what it holds.
pub open spec fn header_of(name: Seq<char>, value: Seq<char>) -> (Seq<char>, Seq<char>) {
    (name, value)
}

/// The headers by what they hold.
pub open spec fn headers_of(headers: Seq<Header>) -> Seq<(Seq<char>, Seq<char>)> {
    Seq::new(headers.len(), |i: int| header_of(headers[i].name@, headers[i].value@))
}

/// The headers of a posted message: the transport's own, the session's id
/// once there is one, and then those that override any other for this
/// message.
pub open spec fn posted(session_id: Option<Seq<char>>, overrides: Seq<Header>) -> Seq<
    (Seq<char>, Seq<char>),
> {
    let own = seq![
        header_of("Content-Type"@, JSON_BODY@),
        header_of("Accept"@, ACCEPTED_BODIES@),
    ];
    let session = match session_id {
        Some(id) => seq![header_of(HEADER_SESSION_ID@, id)],
        None => Seq::empty(),
    };
    own + session + headers_of(overrides)
}

fn header(name: &str, value: &str) -> (r: Header)
    ensures
        r.name@ == name@,
        r.value@ == value@,
{
    Header { name: name.to_owned(), value: value.to_owned() }
}

/// The headers of a posted message, in the order in which they are set: a
/// later one replaces an earlier one of the same name.
pub fn post_headers(session_id: Option<&str>, overrides: &Vec<Header>) -> (r: Vec<Header>)
    ensures
        headers_of(r@) == posted(
            match session_id {
                Some(id) => Some(id@),
                None => None,
            },
            overrides@,
        ),
{
    let mut r: Vec<Header> = Vec::new();
    r.push(header("Content-Type", JSON_BODY));
    r.push(header("Accept", ACCEPTED_BODIES));
    match session_id {
        Some(id) => r.push(header(HEADER_SESSION_ID, id)),
        None => (),
    }
    let ghost own = r@;
    for i in 0..overrides.len()
        invariant
            r.len() == own.len() + i,
            r@.take(own.len() as int) == own,
            forall|j: int|
                0 <= j < i ==> (#[trigger] r@[own.len() + j]).name@ == overrides@[j].name@
                    && r@[own.len() + j].value@ == overrides@[j].value@,
    {
        let ghost before = r@;
        r.push(header(&overrides[i].name, &overrides[i].value));
        assert(r@.take(own.len() as int) =~= before.take(own.len() as int));
    }
    proof {
        assert forall|k: int| 0 <= k < r.len() implies headers_of(r@)[k] == posted(
            match session_id {
                Some(id) => Some(id@),
                None => None,
            },
            overrides@,
        )[k] by {
            if k < own.len() {
                assert(r@[k] == r@.take(own.len() as int)[k]);
            } else {
                let j = k - own.len();
                assert(r@[own.len() + j] == r@[k]);
            }
        }
    }
    r
}

/// The headers of a request for the stream.
pub fn stream_headers(session_id: &str, last_event_id: Option<&str>) -> (r: Vec<Header>)
    ensures
        headers_of(r@) == seq![
            header_of("Accept"@, ACCEPTED_BODIES@),
            header_of(HEADER_SESSION_ID@, session_id@),
        ] + match last_event_id {
            Some(id) => seq![header_of(HEADER_LAST_EVENT_ID@, id@)],
            None => Seq::empty(),
        },
{
    let mut r: Vec<Header> = Vec::new();
    r.push(header("Accept", ACCEPTED_BODIES));
    r.push(header(HEADER_SESSION_ID, session_id));
    match last_event_id {
        Some(id) => r.push(header(HEADER_LAST_EVENT_ID, id)),
        None => (),
    }
    r
}

/// A message posted without overrides carries nothing of those of another.
pub proof fn law_overrides_ride_one_message(session_id: Option<Seq<char>>, overrides: Seq<Header>)
    ensures
        posted(session_id, overrides) == posted(session_id, Seq::empty()) + headers_of(overrides),
        overrides.len() > 0 ==> posted(session_id, overrides).last() == headers_of(
            overrides,
        ).last(),
{
    assert(headers_of(Seq::<Header>::empty()) =~= Seq::empty());
    assert(posted(session_id, overrides) =~= posted(session_id, Seq::empty()) + headers_of(
        overrides,
    ));
}

} // verus!
