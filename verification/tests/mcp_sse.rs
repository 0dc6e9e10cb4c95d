//! Connecting over a stream of server-sent events.
use aura::mcp::sse::{
    check_content_types, connect_step, endpoint_step, receive_step, resolve_message_endpoint,
    stream_address, ConnectStep, EndpointStep, ReceiveStep, SseTransportError, StreamItem,
};

fn event(event: Option<&str>, data: Option<&str>) -> StreamItem {
    StreamItem::Event {
        event: event.map(str::to_owned),
        data: data.map(str::to_owned),
    }
}

#[test]
fn test_resolve_message_endpoint_query_only() {
    let result = resolve_message_endpoint("https://localhost/sse", "?sessionId=x").unwrap();
    assert_eq!(result.as_str(), "https://localhost/sse?sessionId=x");
}

#[test]
fn test_resolve_message_endpoint_relative_path() {
    let result = resolve_message_endpoint("https://localhost/sse", "mypath?sessionId=x").unwrap();
    assert_eq!(result.as_str(), "https://localhost/mypath?sessionId=x");
}

#[test]
fn test_resolve_message_endpoint_absolute_path() {
    let result = resolve_message_endpoint("https://localhost/sse", "/xxx?sessionId=x").unwrap();
    assert_eq!(result.as_str(), "https://localhost/xxx?sessionId=x");
}

#[test]
fn test_resolve_message_endpoint_full_url() {
    let result =
        resolve_message_endpoint("https://localhost/sse", "http://example.com/xxx?sessionId=x")
            .unwrap();
    assert_eq!(result.as_str(), "http://example.com/xxx?sessionId=x");
}

#[test]
fn test_resolve_message_endpoint_subpath_relative() {
    let result =
        resolve_message_endpoint("https://example.com/api/mcp/sse", "messages?sessionId=x").unwrap();
    assert_eq!(
        result.as_str(),
        "https://example.com/api/mcp/messages?sessionId=x"
    );
}

#[test]
fn test_resolve_message_endpoint_subpath_query() {
    let result =
        resolve_message_endpoint("https://example.com/api/mcp/sse", "?sessionId=x").unwrap();
    assert_eq!(
        result.as_str(),
        "https://example.com/api/mcp/sse?sessionId=x"
    );
}

#[test]
fn an_endpoint_that_makes_no_url_is_refused() {
    assert!(matches!(
        resolve_message_endpoint("https://localhost/sse", "http://[bad"),
        Err(SseTransportError::UrlParse(_))
    ));
    assert!(matches!(
        resolve_message_endpoint("no url", "x"),
        Err(SseTransportError::UrlParse(_))
    ));
}

#[test]
fn the_stream_has_an_address() {
    assert_eq!(
        stream_address("HTTPS://Example.com").unwrap(),
        "https://example.com/"
    );
    assert!(matches!(
        stream_address("/no/host"),
        Err(SseTransportError::UrlParse(_))
    ));
}

#[test]
fn a_response_must_be_an_event_stream() {
    assert!(check_content_types(&vec!["text/event-stream; charset=utf-8".to_owned()]).is_ok());
    assert!(
        check_content_types(&vec!["text/plain".to_owned(), "text/event-stream".to_owned()]).is_ok()
    );
    assert!(matches!(
        check_content_types(&vec![]),
        Err(SseTransportError::MissingContentType)
    ));
    match check_content_types(&vec!["text/html".to_owned(), "text/plain".to_owned()]) {
        Err(SseTransportError::UnexpectedContentType(first)) => assert_eq!(first, "text/html"),
        other => panic!("{other:?}"),
    }
}

#[test]
fn the_first_endpoint_event_decides() {
    let base = "https://localhost/sse";
    assert!(matches!(
        connect_step(base, event(Some("message"), Some("hello"))),
        ConnectStep::Continue
    ));
    assert!(matches!(
        connect_step(base, event(Some("endpoint"), None)),
        ConnectStep::Continue
    ));
    match connect_step(base, event(Some("endpoint"), Some("/post?s=1"))) {
        ConnectStep::Connected(url) => assert_eq!(url, "https://localhost/post?s=1"),
        other => panic!("{other:?}"),
    }
    assert!(matches!(
        connect_step(base, event(Some("endpoint"), Some("http://[bad"))),
        ConnectStep::Refused(SseTransportError::UrlParse(_))
    ));
    assert!(matches!(
        connect_step(base, StreamItem::Ended),
        ConnectStep::Refused(SseTransportError::MissingEndpointEvent)
    ));
    match connect_step(base, StreamItem::Broken("reset".to_owned())) {
        ConnectStep::Refused(SseTransportError::SseStream(why)) => assert_eq!(why, "reset"),
        other => panic!("{other:?}"),
    }
    match endpoint_step(event(Some("endpoint"), Some("?s=1"))) {
        EndpointStep::Named(endpoint) => assert_eq!(endpoint, "?s=1"),
        other => panic!("{other:?}"),
    }
}

#[test]
fn only_message_events_are_read() {
    assert_eq!(
        receive_step(event(Some("message"), Some("{}"))),
        ReceiveStep::Message("{}".to_owned())
    );
    assert_eq!(
        receive_step(event(Some("endpoint"), Some("{}"))),
        ReceiveStep::Skip
    );
    assert_eq!(receive_step(event(None, Some("{}"))), ReceiveStep::Skip);
    assert_eq!(receive_step(event(Some("message"), None)), ReceiveStep::Skip);
    assert_eq!(receive_step(StreamItem::Ended), ReceiveStep::Closed);
    assert_eq!(
        receive_step(StreamItem::Broken("reset".to_owned())),
        ReceiveStep::Closed
    );
}
