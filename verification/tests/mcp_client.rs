//! The client of a tool server.
use aura::mcp::client::{
    cancellable_reply, connection_failure, progress_reply, tool_reply, CallFailure,
    InFlightRequests, McpClient, NoticeOutcome, Race, RequestId, ToolReply,
};
use aura::mcp::headers::{usable_headers, Header};
use aura::mcp::http_client::{
    post_headers, stream_headers, CustomHttpClient, HttpReply, HttpStatus, PostReply,
    StreamableHttpError,
};
use aura::mcp::response::{CallToolResult, ToolContent};

fn header(name: &str, value: &str) -> Header {
    Header {
        name: name.to_owned(),
        value: value.to_owned(),
    }
}

fn reply(code: u16, content_type: Option<&str>) -> HttpReply {
    HttpReply {
        status: HttpStatus::new(code).unwrap(),
        content_type: content_type.map(str::to_owned),
        session_id: Some("s-1".to_owned()),
    }
}

fn answered(text: &str) -> ToolReply {
    ToolReply::Result(CallToolResult {
        content: vec![ToolContent::Text(text.to_owned())],
        structured_content: None,
        is_error: None,
    })
}

#[test]
fn client_test_in_flight_requests_tracking() {
    let mut tracker = InFlightRequests::new();
    let http_id = "http-123";
    let mcp_id = RequestId::Number(1);

    tracker.register(http_id, mcp_id.clone());
    assert_eq!(tracker.get_all(http_id).len(), 1);

    tracker.remove(http_id, &mcp_id);
    assert_eq!(tracker.get_all(http_id).len(), 0);
}

#[test]
fn mcp_streamable_http_test_in_flight_requests_tracking() {
    let mut client = McpClient::new("http://localhost/mcp".to_owned());
    let mcp_id = RequestId::Number(1);
    client.begin_tracked("http-123", mcp_id.clone(), "tool", None, RequestId::Number(9));
    assert_eq!(client.in_flight_tracker().get_all("http-123").len(), 1);

    let result = client.finish_tracked("http-123", &mcp_id, answered("done"));
    assert_eq!(result, Ok("done".to_owned()));
    assert_eq!(client.in_flight_tracker().get_all("http-123").len(), 0);
}

#[test]
fn a_request_is_in_flight_once() {
    let mut tracker = InFlightRequests::new();
    tracker.register("a", RequestId::Number(1));
    tracker.register("a", RequestId::Number(1));
    tracker.register("b", RequestId::Number(1));
    assert_eq!(tracker.get_all("a"), vec![RequestId::Number(1)]);
    tracker.clear("a");
    assert!(tracker.get_all("a").is_empty());
    assert_eq!(tracker.get_all("b"), vec![RequestId::Number(1)]);
}

#[test]
fn what_a_call_comes_to() {
    assert_eq!(tool_reply(answered("fine")), Ok("fine".to_owned()));
    assert_eq!(
        tool_reply(ToolReply::Other),
        Err("Unexpected response type for tool call".to_owned())
    );
    assert_eq!(
        tool_reply(ToolReply::Failed("refused".to_owned())),
        Err("Tool execution failed: refused".to_owned())
    );
    assert_eq!(
        progress_reply("grep", ToolReply::Failed("refused".to_owned())),
        Err(CallFailure {
            message: "Tool 'grep' execution failed".to_owned(),
            cause: Some("refused".to_owned()),
        })
    );
    assert_eq!(
        progress_reply("grep", ToolReply::Other),
        Err(CallFailure {
            message: "Unexpected response type for tool call".to_owned(),
            cause: None,
        })
    );
    assert_eq!(progress_reply("grep", answered("x")), Ok("x".to_owned()));
}

#[test]
fn a_cancelled_call_is_told_to_the_server() {
    let (notice, result) = cancellable_reply(RequestId::Number(4), Race::Cancelled);
    let notice = notice.expect("the server is told");
    assert_eq!(notice.request_id, RequestId::Number(4));
    assert_eq!(notice.reason, "Client disconnected or timeout");
    assert_eq!(result, Err("Request cancelled".to_owned()));

    let (notice, result) = cancellable_reply(RequestId::Number(4), Race::Replied(answered("x")));
    assert!(notice.is_none());
    assert_eq!(result, Ok("x".to_owned()));
}

#[test]
fn cancelling_tells_of_each_request_in_flight() {
    let mut client = McpClient::new("http://localhost/mcp".to_owned());
    client.set_current_request("http-1");
    let start = client.begin_tracked(
        "http-1",
        RequestId::Number(1),
        "grep",
        Some("call_1".to_owned()),
        RequestId::Number(9),
    );
    let start = start.expect("the start is announced");
    assert_eq!(start.tool_id, "call_1");
    assert_eq!(start.tool_name, "grep");
    assert_eq!(start.progress_token, RequestId::Number(9));
    client.begin_tracked("http-1", RequestId::Number(2), "grep", None, RequestId::Number(8));
    client.begin_tracked("http-2", RequestId::Number(3), "grep", None, RequestId::Number(7));

    let notices = client.cancel_notices("http-1", "gone");
    assert_eq!(notices.len(), 2);
    assert!(notices.iter().all(|notice| notice.reason == "gone"));

    let outcomes = vec![NoticeOutcome::Delivered, NoticeOutcome::TimedOut];
    assert_eq!(client.cancel_and_close("http-1", &outcomes), 1);
    assert_eq!(client.get_current_request(), None);
    assert!(client.in_flight_tracker().get_all("http-1").is_empty());
    assert_eq!(client.in_flight_tracker().get_all("http-2").len(), 1);
    assert_eq!(client.server_url(), "http://localhost/mcp");
}

#[test]
fn http_error_status_surfaces_in_reason() {
    let mut http = CustomHttpClient::new();
    http.record_http_status(HttpStatus::new(200).unwrap());
    assert_eq!(http.first_error(), None);
    http.record_http_status(HttpStatus::new(404).unwrap());
    http.record_http_status(HttpStatus::new(500).unwrap());
    assert_eq!(
        http.first_error().map(String::as_str),
        Some("HTTP status: 404 Not Found")
    );
    assert_eq!(
        connection_failure(&mut http, "channel closed".to_owned()),
        "HTTP status: 404 Not Found: channel closed"
    );
    assert_eq!(
        connection_failure(&mut http, "channel closed".to_owned()),
        "channel closed"
    );
}

#[test]
fn the_first_failing_status_is_kept_as_it_is_shown() {
    let mut http = CustomHttpClient::new();
    http.keep_status(HttpStatus::new(301).unwrap(), "301 Moved".to_owned());
    http.keep_status(HttpStatus::new(500).unwrap(), "500 Broken".to_owned());
    assert_eq!(http.take_first_error().as_deref(), Some("HTTP status: 301 Moved"));
    assert_eq!(http.take_first_error(), None);
}

#[test]
fn statuses_have_three_digits() {
    assert!(HttpStatus::new(99).is_none());
    assert!(HttpStatus::new(1000).is_none());
    let status = HttpStatus::new(299).unwrap();
    assert!(status.is_success() && !status.is_failure());
    assert_eq!(status.show(), "299 <unknown status code>");
    assert!(HttpStatus::new(599).unwrap().is_failure());
    assert!(!HttpStatus::new(600).unwrap().is_failure());
}

#[test]
fn post_message_forwards_session_id_and_accepts_empty_202() {
    let sent = post_headers(Some("s-1"), &vec![]);
    assert!(sent.contains(&header("Mcp-Session-Id", "s-1")));
    assert!(sent.contains(&header("Content-Type", "application/json")));
    assert!(sent.contains(&header("Accept", "application/json, text/event-stream")));
    assert_eq!(post_headers(None, &vec![]).len(), 2);

    let mut http = CustomHttpClient::new();
    for code in [202, 204] {
        assert!(matches!(
            http.check_posted(reply(code, Some("application/json"))),
            Ok(PostReply::Accepted)
        ));
    }
    match http.check_posted(reply(200, Some("application/json; charset=utf-8"))) {
        Ok(PostReply::Json { session_id }) => assert_eq!(session_id.as_deref(), Some("s-1")),
        other => panic!("{other:?}"),
    }
    match http.check_posted(reply(200, Some("text/event-stream"))) {
        Ok(PostReply::Sse { session_id }) => assert_eq!(session_id.as_deref(), Some("s-1")),
        other => panic!("{other:?}"),
    }
    assert_eq!(http.first_error(), None);
    assert!(matches!(
        http.check_posted(reply(200, Some("text/html"))),
        Err(StreamableHttpError::UnexpectedContentType(Some(_)))
    ));
    match http.check_posted(reply(422, None)) {
        Err(StreamableHttpError::Status(status)) => assert_eq!(status.code(), 422),
        other => panic!("{other:?}"),
    }
    assert_eq!(
        http.first_error().map(String::as_str),
        Some("HTTP status: 422 Unprocessable Entity")
    );
}

#[test]
fn override_rides_one_call_and_no_later_one() {
    let overrides = vec![header("authorization", "Bearer approver")];
    let gated = post_headers(Some("s-1"), &overrides);
    assert_eq!(gated.last(), Some(&header("authorization", "Bearer approver")));
    let later = post_headers(Some("s-1"), &vec![]);
    assert!(later.iter().all(|h| h.name != "authorization"));
}

#[test]
fn a_server_without_a_stream_is_no_failure() {
    let mut http = CustomHttpClient::new();
    assert!(matches!(
        http.check_stream(&reply(405, None)),
        Err(StreamableHttpError::ServerDoesNotSupportSse)
    ));
    assert_eq!(http.first_error(), None);
    assert!(http.check_stream(&reply(200, Some("text/event-stream"))).is_ok());
    assert!(http.check_stream(&reply(200, Some("application/json"))).is_ok());
    assert!(matches!(
        http.check_stream(&reply(200, None)),
        Err(StreamableHttpError::UnexpectedContentType(None))
    ));
    assert!(matches!(
        http.check_stream(&reply(401, None)),
        Err(StreamableHttpError::Status(_))
    ));
    assert!(matches!(
        http.check_deleted(&reply(405, None)),
        Err(StreamableHttpError::ServerDoesNotSupportDeleteSession)
    ));
    assert!(matches!(
        http.check_deleted(&reply(500, None)),
        Err(StreamableHttpError::Status(_))
    ));
    assert!(http.check_deleted(&reply(204, None)).is_ok());
    let headers = stream_headers("s-1", Some("e-9"));
    assert_eq!(headers.last(), Some(&header("Last-Event-Id", "e-9")));
    assert_eq!(stream_headers("s-1", None).len(), 2);
}

#[test]
fn headers_that_cannot_be_sent_are_skipped() {
    let usable = usable_headers(vec![
        header("x-ok", "value\twith tab"),
        header("bad name", "value"),
        header("", "value"),
        header("x-control", "a\nb"),
        header("x_also~ok", "ünïcode"),
    ]);
    let names: Vec<&str> = usable.iter().map(|h| h.name.as_str()).collect();
    assert_eq!(names, vec!["x-ok", "x_also~ok"]);
}
