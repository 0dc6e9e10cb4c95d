//! What a tool call came back with.
use aura::json::{Json, Member};
use aura::mcp::response::{extract_tool_result, tool_result_text, CallToolResult, ToolContent};

fn json(value: serde_json::Value) -> Json {
    match value {
        serde_json::Value::Bool(b) => Json::Bool(b),
        serde_json::Value::Number(n) => Json::UInt(n.as_u64().expect("a small number")),
        serde_json::Value::String(s) => Json::Text(s),
        serde_json::Value::Array(items) => Json::Array(items.into_iter().map(json).collect()),
        serde_json::Value::Object(map) => Json::Object(
            map.into_iter()
                .map(|(key, value)| Member {
                    key,
                    value: json(value),
                })
                .collect(),
        ),
        serde_json::Value::Null => Json::Null,
    }
}

fn parsed(text: &str) -> Json {
    json(serde_json::from_str(text).expect("the text is JSON"))
}

fn text(text: &str) -> Vec<ToolContent> {
    vec![ToolContent::Text(text.to_owned())]
}

#[test]
fn test_extract_structured_content() {
    let result = CallToolResult {
        content: vec![],
        structured_content: Some(parsed(r#"{"result":["metric1","metric2","metric3"]}"#)),
        is_error: None,
    };

    let extracted = extract_tool_result(result);

    assert!(extracted.contains("\"result\""));
    assert!(extracted.contains("metric1"));
    assert!(extracted.contains("metric2"));
    assert!(extracted.contains("metric3"));

    let parsed: serde_json::Value = serde_json::from_str(&extracted).unwrap();
    assert_eq!(parsed["result"].as_array().unwrap().len(), 3);
}

#[test]
fn test_extract_text_content() {
    let result = CallToolResult {
        content: text("Hello, world!"),
        structured_content: None,
        is_error: None,
    };
    assert_eq!(extract_tool_result(result), "Hello, world!");
}

#[test]
fn test_prioritizes_structured_over_text() {
    let result = CallToolResult {
        content: text("Fallback text"),
        structured_content: Some(parsed(r#"{"data":"structured"}"#)),
        is_error: None,
    };
    let extracted = extract_tool_result(result);
    assert!(extracted.contains("structured"));
    assert!(!extracted.contains("Fallback text"));
}

#[test]
fn test_empty_content() {
    let result = CallToolResult {
        content: vec![],
        structured_content: None,
        is_error: None,
    };
    assert_eq!(extract_tool_result(result), "");
}

#[test]
fn test_error_text_content_prefixed() {
    let result = CallToolResult {
        content: text("Connection refused"),
        structured_content: None,
        is_error: Some(true),
    };
    let extracted = extract_tool_result(result);
    assert!(
        extracted.starts_with("Tool returned an error:"),
        "Expected error prefix, got: {}",
        extracted
    );
    assert!(extracted.contains("Connection refused"));
}

#[test]
fn test_error_structured_content_prefixed() {
    let result = CallToolResult {
        content: vec![],
        structured_content: Some(parsed(
            r#"{"error_code":"AUTH_FAILED","message":"Invalid token"}"#,
        )),
        is_error: Some(true),
    };
    let extracted = extract_tool_result(result);
    assert!(
        extracted.starts_with("Tool returned an error:"),
        "Expected error prefix, got: {}",
        extracted
    );
    assert!(extracted.contains("AUTH_FAILED"));
}

#[test]
fn test_success_not_prefixed() {
    let result = CallToolResult {
        content: text("Success message"),
        structured_content: None,
        is_error: Some(false),
    };
    let extracted = extract_tool_result(result);
    assert_eq!(extracted, "Success message");
    assert!(!extracted.contains("Tool returned an error"));
}

#[test]
fn a_document_is_pretty_printed() {
    let result = CallToolResult {
        content: vec![],
        structured_content: Some(parsed(r#"{"b":1,"a":[true]}"#)),
        is_error: None,
    };
    assert_eq!(
        extract_tool_result(result),
        "{\n  \"a\": [\n    true\n  ],\n  \"b\": 1\n}"
    );
}

#[test]
fn a_deep_document_is_pretty_printed() {
    let mut document = Json::UInt(1);
    for _ in 0..200 {
        document = Json::Array(vec![document]);
    }
    let shown = extract_tool_result(CallToolResult {
        content: vec![],
        structured_content: Some(document),
        is_error: None,
    });
    assert!(shown.starts_with("[\n  [\n    ["), "{shown}");
    assert_eq!(shown.lines().count(), 401);
}

#[test]
fn numbers_are_written_as_they_are() {
    let shown = extract_tool_result(CallToolResult {
        content: vec![],
        structured_content: Some(Json::Array(vec![
            Json::UInt(u64::MAX),
            Json::Int(-7),
            Json::Float("1.5".to_owned()),
            Json::Null,
        ])),
        is_error: None,
    });
    assert_eq!(shown, "[\n  18446744073709551615,\n  -7,\n  1.5,\n  null\n]");
}

#[test]
fn items_are_shown_one_per_line() {
    let result = || CallToolResult {
        content: vec![
            ToolContent::Text("one".to_owned()),
            ToolContent::Image {
                mime_type: "image/png".to_owned(),
                data: "QUJD".to_owned(),
            },
            ToolContent::Resource {
                uri: "file:///a".to_owned(),
            },
            ToolContent::Unsupported,
        ],
        structured_content: None,
        is_error: Some(true),
    };
    let shown = "Tool returned an error: one\n[Image: image/png (4)]\n[Resource: file:///a]\n\
                 [Unsupported content type]";
    assert_eq!(extract_tool_result(result()), shown);
    assert_eq!(tool_result_text(result(), None), shown);
    assert_eq!(
        tool_result_text(result(), Some("{}".to_owned())),
        "Tool returned an error: {}"
    );
}
