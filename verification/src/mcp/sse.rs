//! Connecting to a tool server over a stream of server-sent events.
//!
//! The client opens the stream, waits for the event that names the endpoint
//! to post messages to, and from then on reads messages from the stream.
use crate::text::same;
use crate::text::search::starts_with;
use vstd::prelude::*;

verus! {

/// The event that carries a message from the server.
pub const SSE_EVENT_MESSAGE: &'static str = "message";

/// The event that names the endpoint to post messages to.
pub const SSE_EVENT_ENDPOINT: &'static str = "endpoint";

/// The content type of an event stream.
pub const EVENT_STREAM: &'static str = "text/event-stream";

/// Why an address is refused.
#[verifier::external_type_specification]
#[verifier::external_body]
pub struct ExParseError(url::ParseError);

/// Why a connection failed.
#[derive(Debug)]
pub enum SseTransportError {
    /// The request failed.
    Http(String),
    /// The stream broke off.
    SseStream(String),
    /// The address of the stream or of the message endpoint is not a URL.
    UrlParse(url::ParseError),
    /// The response has no content type.
    MissingContentType,
    /// The response is no event stream; the first content type that it has.
    UnexpectedContentType(String),
    /// The stream ended before it named an endpoint.
    MissingEndpointEvent,
}

// ---------------------------------------------------------------------------
// Addresses
// ---------------------------------------------------------------------------

/// The URL that a text spells, written out; none where it spells none.
pub uninterp spec fn url_of(text: Seq<char>) -> Option<Seq<char>>;

/// The URL that a text spells, as `url::Url::parse` reads it. What the URL is
/// for a given text is left to that function.
#[verifier::external_body]
fn parse_url(text: &str) -> (r: Result<String, url::ParseError>)
    ensures
        match r {
            Ok(url) => url_of(text@) == Some(url@),
            Err(_) => url_of(text@) is None,
        },
{
    url::Url::parse(text).map(String::from)
}

/// The URL that a reference means against a base, written out; none where the
/// base is no URL or the reference makes none.
pub uninterp spec fn url_against(base: Seq<char>, reference: Seq<char>) -> Option<Seq<char>>;

/// The URL that a reference means against a base, as `url::Url::join` resolves
/// it. What the URL is for a given base and reference is left to that
/// function.
#[verifier::external_body]
fn join_url(base: &str, reference: &str) -> (r: Result<String, url::ParseError>)
    ensures
        match r {
            Ok(url) => url_against(base@, reference@) == Some(url@),
            Err(_) => url_against(base@, reference@) is None,
        },
{
    url::Url::parse(base)?.join(reference).map(String::from)
}

/// The address of the stream, before any request is made.
pub fn stream_address(url: &str) -> (r: Result<String, SseTransportError>)
    ensures
        match r {
            Ok(address) => url_of(url@) == Some(address@),
            Err(e) => e is UrlParse && url_of(url@) is None,
        },
{
    match parse_url(url) {
        Ok(address) => Ok(address),
        Err(e) => Err(SseTransportError::UrlParse(e)),
    }
}

/// The message endpoint that the server named, against the address of the
/// stream.
pub fn resolve_message_endpoint(base: &str, endpoint: &str) -> (r: Result<
    String,
    SseTransportError,
>)
    ensures
        match r {
            Ok(url) => url_against(base@, endpoint@) == Some(url@),
            Err(e) => e is UrlParse && url_against(base@, endpoint@) is None,
        },
{
    match join_url(base, endpoint) {
        Ok(url) => Ok(url),
        Err(e) => Err(SseTransportError::UrlParse(e)),
    }
}

// ---------------------------------------------------------------------------
// Content types
// ---------------------------------------------------------------------------

/// Whether one of the content types is that of an event stream.
pub open spec fn is_event_stream(types: Seq<String>) -> bool {
    exists|i: int| 0 <= i < types.len() && EVENT_STREAM@.is_prefix_of((#[trigger] types[i])@)
}

/// Whether a response with these content types is an event stream.
pub fn check_content_types(types: &Vec<String>) -> (r: Result<(), SseTransportError>)
    ensures
        match r {
            Ok(_) => is_event_stream(types@),
            Err(SseTransportError::MissingContentType) => types.len() == 0,
            Err(SseTransportError::UnexpectedContentType(first)) => {
                types.len() > 0 && !is_event_stream(types@) && first@ == types@[0]@
            },
            Err(_) => false,
        },
{
    if types.len() == 0 {
        return Err(SseTransportError::MissingContentType);
    }
    for i in 0..types.len()
        invariant
            forall|j: int| 0 <= j < i ==> !EVENT_STREAM@.is_prefix_of((#[trigger] types@[j])@),
    {
        if starts_with(&types[i], EVENT_STREAM) {
            return Ok(());
        }
    }
    Err(SseTransportError::UnexpectedContentType(types[0].clone()))
}

// ---------------------------------------------------------------------------
// Events
// ---------------------------------------------------------------------------

/// One step of the stream.
#[derive(Debug)]
pub enum StreamItem {
    Event { event: Option<String>, data: Option<String> },
    /// The stream broke off.
    Broken(String),
    /// The stream ended.
    Ended,
}

impl StreamItem {
    /// The data of an event of the given name.
    pub open spec fn data_of(self, name: Seq<char>) -> Option<Seq<char>> {
        match self {
            StreamItem::Event { event: Some(event), data: Some(data) } => if event@ == name {
                Some(data@)
            } else {
                None
            },
            _ => None,
        }
    }

    /// The data of an event of the given name.
    fn into_data_of(self, name: &str) -> (r: Option<String>)
        ensures
            match r {
                Some(data) => self.data_of(name@) == Some(data@),
                None => self.data_of(name@) is None,
            },
    {
        match self {
            StreamItem::Event { event: Some(event), data: Some(data) } => if same(&event, name) {
                Some(data)
            } else {
                None
            },
            _ => None,
        }
    }
}

/// Where a connection stands after one step of the stream.
#[derive(Debug)]
pub enum ConnectStep {
    /// Read on.
    Continue,
    /// Connected; messages go to this URL.
    Connected(String),
    Refused(SseTransportError),
}

/// What a connection comes to.
pub enum Connection {
    /// No step has decided it yet.
    Open,
    Connected(Seq<char>),
    /// The server named an endpoint that makes no URL.
    BadEndpoint,
    Broken(Seq<char>),
    /// The stream ended without naming an endpoint.
    NoEndpoint,
}

/// What one step of the stream makes of a connection.
pub open spec fn connection_step(base: Seq<char>, item: StreamItem) -> Connection {
    match item {
        StreamItem::Broken(e) => Connection::Broken(e@),
        StreamItem::Ended => Connection::NoEndpoint,
        StreamItem::Event { .. } => match item.data_of(SSE_EVENT_ENDPOINT@) {
            Some(endpoint) => match url_against(base, endpoint) {
                Some(url) => Connection::Connected(url),
                None => Connection::BadEndpoint,
            },
            None => Connection::Open,
        },
    }
}

impl ConnectStep {
    /// What the step makes of the connection.
    pub open spec fn matches(self, c: Connection) -> bool {
        match self {
            ConnectStep::Continue => c is Open,
            ConnectStep::Connected(url) => c == Connection::Connected(url@),
            ConnectStep::Refused(SseTransportError::UrlParse(_)) => c is BadEndpoint,
            ConnectStep::Refused(SseTransportError::SseStream(e)) => c == Connection::Broken(e@),
            ConnectStep::Refused(SseTransportError::MissingEndpointEvent) => c is NoEndpoint,
            ConnectStep::Refused(_) => false,
        }
    }
}

/// What one step of the stream says of the endpoint.
#[derive(Debug)]
pub enum EndpointStep {
    /// Nothing; read on.
    Continue,
    /// The endpoint that the server names.
    Named(String),
    Refused(SseTransportError),
}

/// What one step of the stream says of the endpoint.
pub fn endpoint_step(item: StreamItem) -> (r: EndpointStep)
    ensures
        match r {
            EndpointStep::Continue => item is Event && item.data_of(SSE_EVENT_ENDPOINT@) is None,
            EndpointStep::Named(endpoint) => item.data_of(SSE_EVENT_ENDPOINT@) == Some(endpoint@),
            EndpointStep::Refused(SseTransportError::SseStream(e)) => item == StreamItem::Broken(e),
            EndpointStep::Refused(SseTransportError::MissingEndpointEvent) => item is Ended,
            EndpointStep::Refused(_) => false,
        },
{
    match item {
        StreamItem::Broken(e) => EndpointStep::Refused(SseTransportError::SseStream(e)),
        StreamItem::Ended => EndpointStep::Refused(SseTransportError::MissingEndpointEvent),
        StreamItem::Event { event, data } => {
            let item = StreamItem::Event { event, data };
            match item.into_data_of(SSE_EVENT_ENDPOINT) {
                Some(endpoint) => EndpointStep::Named(endpoint),
                None => EndpointStep::Continue,
            }
        },
    }
}

/// One step of connecting to the stream at `base`.
pub fn connect_step(base: &str, item: StreamItem) -> (r: ConnectStep)
    ensures
        r.matches(connection_step(base@, item)),
{
    match endpoint_step(item) {
        EndpointStep::Continue => ConnectStep::Continue,
        EndpointStep::Named(endpoint) => match resolve_message_endpoint(base, &endpoint) {
            Ok(url) => ConnectStep::Connected(url),
            Err(e) => ConnectStep::Refused(e),
        },
        EndpointStep::Refused(e) => ConnectStep::Refused(e),
    }
}

/// What a stream makes of a connection: what the first step that decides it
/// makes of it.
pub open spec fn connection(base: Seq<char>, items: Seq<StreamItem>) -> Connection
    decreases items.len(),
{
    if items.len() == 0 {
        Connection::Open
    } else {
        match connection_step(base, items[0]) {
            Connection::Open => connection(base, items.drop_first()),
            decided => decided,
        }
    }
}

/// The first event that names an endpoint decides where messages go, whatever
/// other events came before it and whatever comes after.
pub proof fn law_first_endpoint_decides(base: Seq<char>, items: Seq<StreamItem>, k: int)
    requires
        0 <= k < items.len(),
        items[k].data_of(SSE_EVENT_ENDPOINT@) is Some,
        forall|i: int|
            0 <= i < k ==> (#[trigger] items[i]) is Event && items[i].data_of(
                SSE_EVENT_ENDPOINT@,
            ) is None,
    ensures
        connection(base, items) == connection_step(base, items[k]),
        !(connection(base, items) is Open),
    decreases k,
{
    if k > 0 {
        assert(items[0] is Event);
        law_first_endpoint_decides(base, items.drop_first(), k - 1);
    }
}

/// A stream that ends before it names an endpoint makes no connection.
pub proof fn law_no_endpoint_no_connection(base: Seq<char>, items: Seq<StreamItem>)
    requires
        items.len() > 0,
        items.last() is Ended,
        forall|i: int|
            0 <= i < items.len() - 1 ==> (#[trigger] items[i]) is Event && items[i].data_of(
                SSE_EVENT_ENDPOINT@,
            ) is None,
    ensures
        connection(base, items) is NoEndpoint,
    decreases items.len(),
{
    if items.len() > 1 {
        assert(items[0] is Event);
        assert(items.drop_first().last() == items.last());
        law_no_endpoint_no_connection(base, items.drop_first());
    }
}

/// What a step of the stream means to a reader of messages.
#[derive(Debug, PartialEq, Eq)]
pub enum ReceiveStep {
    /// Read on.
    Skip,
    /// A message, still to be decoded.
    Message(String),
    /// Nothing more comes.
    Closed,
}

/// What a step of the stream means to a reader of messages. A message that
/// does not decode is skipped by the reader.
pub fn receive_step(item: StreamItem) -> (r: ReceiveStep)
    ensures
        match r {
            ReceiveStep::Closed => !(item is Event),
            ReceiveStep::Message(data) => item.data_of(SSE_EVENT_MESSAGE@) == Some(data@),
            ReceiveStep::Skip => item is Event && item.data_of(SSE_EVENT_MESSAGE@) is None,
        },
{
    match item {
        StreamItem::Event { event, data } => {
            let item = StreamItem::Event { event, data };
            match item.into_data_of(SSE_EVENT_MESSAGE) {
                Some(data) => ReceiveStep::Message(data),
                None => ReceiveStep::Skip,
            }
        },
        _ => ReceiveStep::Closed,
    }
}

} // verus!
