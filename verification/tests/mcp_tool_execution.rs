//! Tool calls: previews, failures and records.
use aura::json::{Json, Member};
use aura::mcp::execution::{
    applied_headers, bound_transport_error, call_arguments, parameter_count, preview_response,
    record_result, surface, Surfaced,
};
use aura::mcp::response::{bound_error_content, MAX_TOOL_ERROR_BYTES};

#[test]
fn test_preview_response_short() {
    let response = "Hello, world!";
    let preview = preview_response(response, 200);
    assert_eq!(preview, "Hello, world!");
}

#[test]
fn test_preview_response_long() {
    let response = "a".repeat(300);
    let preview = preview_response(&response, 200);
    assert!(preview.starts_with(&"a".repeat(200)));
    assert!(preview.contains("(300 chars)"));
}

#[test]
fn test_preview_response_exact_length() {
    let response = "a".repeat(200);
    let preview = preview_response(&response, 200);
    assert_eq!(preview.len(), 200);
    assert!(!preview.contains("chars"));
}

#[test]
fn test_preview_response_multibyte_boundary() {
    // The emoji takes the four bytes from the sixth on.
    let response = "Hello 🎉 World";
    assert_eq!(response.len(), 16);

    // Byte eight lies inside the emoji: the cut backs up to byte six.
    let preview = preview_response(response, 8);
    assert!(preview.starts_with("Hello "));
    assert!(preview.contains("(16 chars)"));
    assert!(!preview.contains("🎉"));
    assert_eq!(preview, "Hello ... (16 chars)");
}

#[test]
fn test_bound_transport_error_cancellation_passthrough() {
    assert_eq!(
        bound_transport_error("Request cancelled by client disconnect"),
        None
    );
}

#[test]
fn test_bound_transport_error_small_passthrough() {
    let msg = "Tool execution failed: Connection refused (os error 61)";
    assert_eq!(bound_transport_error(msg), Some(msg.to_string()));
}

#[test]
fn test_bound_transport_error_bounds_large() {
    let huge = format!("Tool execution failed: {}", "stack frame\n".repeat(8000));
    let bounded = bound_transport_error(&huge).expect("non-cancel error must be bounded");
    assert!(
        bounded.len() <= MAX_TOOL_ERROR_BYTES + 128,
        "bounded transport error must stay near the budget; got {} bytes",
        bounded.len()
    );
    assert!(bounded.contains("[tool error truncated:"));
    assert!(bounded.starts_with("Tool execution failed:"));
}

#[test]
fn a_bounded_error_says_what_was_kept() {
    assert_eq!(bound_error_content("abc".to_owned(), 3), "abc");
    assert_eq!(
        bound_error_content("abcdef".to_owned(), 3),
        "abc\n[tool error truncated: 3 of 6 bytes kept]"
    );
    assert_eq!(
        bound_error_content("aé€".to_owned(), 2),
        "a\n[tool error truncated: 1 of 6 bytes kept]"
    );
}

#[test]
fn what_the_agent_gets() {
    assert_eq!(
        surface(Ok("fine".to_owned())),
        Surfaced::Response("fine".to_owned())
    );
    assert_eq!(
        surface(Err("Request cancelled".to_owned())),
        Surfaced::Cancelled("Request cancelled".to_owned())
    );
    assert_eq!(
        surface(Err("refused".to_owned())),
        Surfaced::Failed("refused".to_owned())
    );
}

#[test]
fn gated_call_stamps_the_applied_header_names_never_values() {
    let record = applied_headers(vec!["x-tenant".to_owned(), "authorization".to_owned()]);
    assert_eq!(record, "authorization,x-tenant");
    let swapped = applied_headers(vec!["authorization".to_owned(), "x-tenant".to_owned()]);
    assert_eq!(swapped, record);
}

#[test]
fn only_an_object_has_arguments() {
    let object = || {
        Json::Object(vec![Member {
            key: "a".to_owned(),
            value: Json::UInt(1),
        }])
    };
    assert_eq!(parameter_count(&object()), Some(1));
    assert_eq!(call_arguments(object()).len(), 1);
    assert_eq!(parameter_count(&Json::Null), None);
    assert!(call_arguments(Json::Array(vec![Json::Null])).is_empty());
}

#[test]
fn what_is_recorded_of_a_call() {
    let fine = record_result(&Ok("äb".to_owned()));
    assert_eq!(fine.length, Some(3));
    assert_eq!(fine.error, None);
    assert!(!fine.cancelled);

    let marked = record_result(&Ok("Tool returned an error: no".to_owned()));
    assert_eq!(marked.error.as_deref(), Some("Tool returned an error: no"));

    let failed = record_result(&Err("refused".to_owned()));
    assert_eq!(failed.length, None);
    assert_eq!(failed.error.as_deref(), Some("refused"));
    assert!(!failed.cancelled);

    let cancelled = record_result(&Err("Request cancelled by client".to_owned()));
    assert_eq!(cancelled.error.as_deref(), Some("cancelled"));
    assert!(cancelled.cancelled);
}
