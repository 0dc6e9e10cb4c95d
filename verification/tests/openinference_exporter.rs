//! Spans as they are exported.
use aura::logging::{
    ATTR_INPUT_VALUE, ATTR_LLM_MODEL_NAME, ATTR_LLM_SYSTEM, ATTR_LLM_TOKEN_COMPLETION,
    ATTR_LLM_TOKEN_PROMPT, ATTR_OUTPUT_VALUE, ATTR_TOOL_NAME, ATTR_TOOL_PARAMETERS,
};
use aura::openinference_exporter::{
    expand_messages, infer_span_kind, push_messages, transform_span, unquote, AttributeValue,
    KeyValue, OpenInferenceExporter, SpanData,
};

fn make_span(name: &str, attributes: Vec<KeyValue>) -> SpanData {
    SpanData {
        name: name.to_owned(),
        attributes,
    }
}

fn flag(key: &str, value: bool) -> KeyValue {
    KeyValue {
        key: key.to_owned(),
        value: AttributeValue::Bool(value),
    }
}

fn find_attr<'a>(span: &'a SpanData, key: &str) -> Option<&'a AttributeValue> {
    span.attributes
        .iter()
        .find(|kv| kv.key.as_str() == key)
        .map(|kv| &kv.value)
}

/// A span as it leaves an exporter.
fn export(span: SpanData) -> Vec<SpanData> {
    OpenInferenceExporter::new(()).translate_batch(vec![span])
}

fn find_span_by_name<'a>(spans: &'a [SpanData], name: &str) -> &'a SpanData {
    spans
        .iter()
        .find(|s| s.name == name)
        .unwrap_or_else(|| panic!("span '{name}' not found"))
}

#[test]
fn test_span_kind_mapping() {
    assert_eq!(infer_span_kind("chat"), "LLM");
    assert_eq!(infer_span_kind("chat_streaming"), "LLM");
    assert_eq!(infer_span_kind("execute_tool"), "TOOL");
    assert_eq!(infer_span_kind("mcp.tool_call"), "TOOL");
    assert_eq!(infer_span_kind("agent.stream"), "AGENT");
    assert_eq!(infer_span_kind("agent.prompt"), "AGENT");
    assert_eq!(infer_span_kind("agent.chat"), "AGENT");
    assert_eq!(infer_span_kind("agent.turn"), "LLM");
    assert_eq!(infer_span_kind("chat_completions"), "CHAIN");
    assert_eq!(infer_span_kind("streaming_completion"), "CHAIN");
    assert_eq!(infer_span_kind("unknown_span"), "CHAIN");
}

#[test]
fn test_adds_span_kind() {
    let span = make_span("chat", vec![]);
    let result = transform_span(span);
    assert_eq!(
        find_attr(&result, "openinference.span.kind")
            .unwrap()
            .to_string(),
        "LLM"
    );
}

#[test]
fn test_translates_gen_ai_system() {
    let span = make_span("chat", vec![KeyValue::text("gen_ai.system", "openai")]);
    let result = transform_span(span);
    assert_eq!(
        find_attr(&result, "llm.system").unwrap().to_string(),
        "openai"
    );
    assert!(find_attr(&result, "gen_ai.system").is_none());
}

#[test]
fn test_translates_gen_ai_request_model() {
    let span = make_span("chat", vec![KeyValue::text("gen_ai.request.model", "gpt-4")]);
    let result = transform_span(span);
    assert_eq!(
        find_attr(&result, "llm.model_name").unwrap().to_string(),
        "gpt-4"
    );
}

#[test]
fn test_translates_token_counts() {
    let span = make_span(
        "agent.stream",
        vec![
            KeyValue::integer("gen_ai.usage.input_tokens", 100),
            KeyValue::integer("gen_ai.usage.output_tokens", 50),
        ],
    );
    let result = transform_span(span);
    assert!(find_attr(&result, "llm.token_count.prompt").is_some());
    assert!(find_attr(&result, "llm.token_count.completion").is_some());
}
#[test]
fn test_tool_attributes_match_logging_constants() {
    let span = make_span(
        "execute_tool",
        vec![
            KeyValue::text("gen_ai.tool.name", "search"),
            KeyValue::text("gen_ai.tool.call.arguments", r#"{"q":"test"}"#),
        ],
    );
    let result = transform_span(span);
    assert!(
        find_attr(&result, ATTR_TOOL_NAME).is_some(),
        "tool.name attribute must use ATTR_TOOL_NAME constant (\"{}\")",
        ATTR_TOOL_NAME
    );
    assert!(
        find_attr(&result, ATTR_TOOL_PARAMETERS).is_some(),
        "tool.parameters attribute must use ATTR_TOOL_PARAMETERS constant (\"{}\")",
        ATTR_TOOL_PARAMETERS
    );
}
#[test]
fn test_llm_attributes_match_logging_constants() {
    let span = make_span(
        "chat",
        vec![
            KeyValue::text("gen_ai.system", "openai"),
            KeyValue::text("gen_ai.request.model", "gpt-4"),
            KeyValue::integer("gen_ai.usage.input_tokens", 100),
            KeyValue::integer("gen_ai.usage.output_tokens", 50),
        ],
    );
    let result = transform_span(span);

    assert!(
        find_attr(&result, ATTR_LLM_SYSTEM).is_some(),
        "must use ATTR_LLM_SYSTEM constant (\"{}\")",
        ATTR_LLM_SYSTEM
    );
    assert!(
        find_attr(&result, ATTR_LLM_MODEL_NAME).is_some(),
        "must use ATTR_LLM_MODEL_NAME constant (\"{}\")",
        ATTR_LLM_MODEL_NAME
    );
    assert!(
        find_attr(&result, ATTR_LLM_TOKEN_PROMPT).is_some(),
        "must use ATTR_LLM_TOKEN_PROMPT constant (\"{}\")",
        ATTR_LLM_TOKEN_PROMPT
    );
    assert!(
        find_attr(&result, ATTR_LLM_TOKEN_COMPLETION).is_some(),
        "must use ATTR_LLM_TOKEN_COMPLETION constant (\"{}\")",
        ATTR_LLM_TOKEN_COMPLETION
    );
}
#[test]
fn test_io_attributes_match_logging_constants() {
    let span = make_span(
        "agent.turn",
        vec![KeyValue::text("gen_ai.turn.prompt", "hello")],
    );
    let result = transform_span(span);
    assert!(
        find_attr(&result, ATTR_INPUT_VALUE).is_some(),
        "must use ATTR_INPUT_VALUE constant (\"{}\")",
        ATTR_INPUT_VALUE
    );
    let span = make_span(
        "chat_completions",
        vec![KeyValue::text("gen_ai.turn.response", "world")],
    );
    let result = transform_span(span);
    assert!(
        find_attr(&result, ATTR_OUTPUT_VALUE).is_some(),
        "must use ATTR_OUTPUT_VALUE constant (\"{}\")",
        ATTR_OUTPUT_VALUE
    );
}

#[test]
fn test_translates_tool_attributes() {
    let span = make_span(
        "execute_tool",
        vec![
            KeyValue::text("gen_ai.tool.name", "search"),
            KeyValue::text("gen_ai.tool.call.arguments", r#"{"q":"test"}"#),
            KeyValue::text("gen_ai.tool.call.result", "found it"),
        ],
    );
    let result = transform_span(span);
    assert_eq!(
        find_attr(&result, "tool.name").unwrap().to_string(),
        "search"
    );
    assert!(find_attr(&result, "tool.parameters").is_some());
    assert_eq!(
        find_attr(&result, "output.value").unwrap().to_string(),
        "found it"
    );
}

#[test]
fn test_tool_result_only_on_tool_spans() {
    let span = make_span(
        "chat",
        vec![KeyValue::text("gen_ai.tool.call.result", "some result")],
    );
    let result = transform_span(span);
    assert!(find_attr(&result, "output.value").is_none());
}

#[test]
fn test_expand_input_messages() {
    let messages = r#"[{"role":"user","content":"hello"},{"role":"assistant","content":"hi"}]"#;
    let span = make_span(
        "chat",
        vec![KeyValue::text("gen_ai.input.messages", messages)],
    );
    let result = transform_span(span);
    assert_eq!(
        find_attr(&result, "llm.input_messages.0.message.role")
            .unwrap()
            .to_string(),
        "user"
    );
    assert_eq!(
        find_attr(&result, "llm.input_messages.0.message.content")
            .unwrap()
            .to_string(),
        "hello"
    );
    assert_eq!(
        find_attr(&result, "llm.input_messages.1.message.role")
            .unwrap()
            .to_string(),
        "assistant"
    );
}

#[test]
fn test_expand_messages_invalid_json() {
    let span = make_span(
        "chat",
        vec![KeyValue::text("gen_ai.input.messages", "not json")],
    );
    let result = transform_span(span);
    assert!(find_attr(&result, "llm.input_messages.0.message.role").is_none());
}

#[test]
fn test_expand_messages_quoted_json() {
    let messages = r#""[{"role":"user","content":"hello"}]""#;
    let span = make_span(
        "chat",
        vec![KeyValue::text("gen_ai.input.messages", messages)],
    );
    let result = transform_span(span);
    assert_eq!(
        find_attr(&result, "llm.input_messages.0.message.role")
            .unwrap()
            .to_string(),
        "user"
    );
}

#[test]
fn test_messages_only_expanded_on_llm_spans() {
    let messages = r#"[{"role":"user","content":"hello"}]"#;
    let span = make_span(
        "agent.stream",
        vec![KeyValue::text("gen_ai.input.messages", messages)],
    );
    let result = transform_span(span);
    assert!(find_attr(&result, "llm.input_messages.0.message.role").is_none());
}

#[test]
fn test_translates_agent_turn_prompt_to_input_value() {
    let span = make_span(
        "agent.turn",
        vec![KeyValue::text("gen_ai.turn.prompt", "What is Rust?")],
    );
    let result = transform_span(span);
    assert_eq!(
        find_attr(&result, "openinference.span.kind")
            .unwrap()
            .to_string(),
        "LLM"
    );
    assert_eq!(
        find_attr(&result, "input.value").unwrap().to_string(),
        "What is Rust?"
    );
}

#[test]
fn test_agent_turn_response_goes_to_output_messages_not_output_value() {
    let span = make_span(
        "agent.turn",
        vec![KeyValue::text(
            "gen_ai.turn.response",
            "Rust is a systems programming language.",
        )],
    );
    let result = transform_span(span);
    assert!(find_attr(&result, "output.value").is_none());
    assert_eq!(
        find_attr(&result, "llm.output_messages.0.message.content")
            .unwrap()
            .to_string(),
        "Rust is a systems programming language."
    );
}

#[test]
fn test_agent_turn_prompt_not_translated_on_tool_span() {
    let span = make_span(
        "execute_tool",
        vec![KeyValue::text("gen_ai.turn.prompt", "hello")],
    );
    let result = transform_span(span);
    assert!(find_attr(&result, "input.value").is_none());
}

#[test]
fn test_translates_agent_metadata() {
    let span = make_span(
        "agent.turn",
        vec![
            KeyValue::text("gen_ai.agent.name", "Unnamed Agent"),
            KeyValue::integer("gen_ai.agent.turn", 4),
            KeyValue::integer("gen_ai.agent.max_turns", 100),
        ],
    );
    let result = transform_span(span);
    assert_eq!(
        find_attr(&result, "agent.name").unwrap().to_string(),
        "Unnamed Agent"
    );
    assert!(find_attr(&result, "agent.turn").is_some());
    assert!(find_attr(&result, "agent.max_turns").is_some());
    assert!(find_attr(&result, "gen_ai.agent.name").is_none());
    assert!(find_attr(&result, "gen_ai.agent.turn").is_none());
    assert!(find_attr(&result, "gen_ai.agent.max_turns").is_none());
}

#[test]
fn test_translates_turn_metadata() {
    let span = make_span(
        "agent.turn",
        vec![
            KeyValue::integer("gen_ai.turn.history_len", 9),
            KeyValue::integer("gen_ai.turn.tool_count", 1),
            flag("gen_ai.turn.has_tool_calls", true),
        ],
    );
    let result = transform_span(span);
    assert!(find_attr(&result, "turn.history_len").is_some());
    assert!(find_attr(&result, "turn.tool_count").is_some());
    assert!(find_attr(&result, "turn.has_tool_calls").is_some());
    assert!(find_attr(&result, "gen_ai.turn.history_len").is_none());
    assert!(find_attr(&result, "gen_ai.turn.tool_count").is_none());
    assert!(find_attr(&result, "gen_ai.turn.has_tool_calls").is_none());
}

#[test]
fn test_all_gen_ai_attributes_stripped() {
    let span = make_span(
        "agent.turn",
        vec![
            KeyValue::text("gen_ai.system", "openai"),
            KeyValue::text("gen_ai.agent.name", "Test"),
            KeyValue::text("gen_ai.turn.prompt", "hello"),
            KeyValue::text("gen_ai.turn.response", "world"),
            KeyValue::integer("gen_ai.turn.history_len", 5),
        ],
    );
    let result = transform_span(span);
    let gen_ai_attrs: Vec<_> = result
        .attributes
        .iter()
        .filter(|kv| kv.key.as_str().starts_with("gen_ai."))
        .collect();
    assert!(
        gen_ai_attrs.is_empty(),
        "gen_ai.* attributes should be stripped, found: {:?}",
        gen_ai_attrs
            .iter()
            .map(|kv| kv.key.as_str())
            .collect::<Vec<_>>()
    );
}

#[test]
fn test_llm_span_output_messages_response_and_reasoning() {
    let span = make_span(
        "agent.turn",
        vec![
            KeyValue::text("gen_ai.turn.response", "The answer is 42."),
            KeyValue::text("gen_ai.turn.reasoning", "I computed 6 * 7."),
        ],
    );
    let result = transform_span(span);
    assert_eq!(
        find_attr(&result, "llm.output_messages.0.message.role")
            .unwrap()
            .to_string(),
        "assistant"
    );
    assert_eq!(
        find_attr(&result, "llm.output_messages.0.message.content")
            .unwrap()
            .to_string(),
        "The answer is 42."
    );
    assert_eq!(
        find_attr(&result, "llm.output_messages.1.message.role")
            .unwrap()
            .to_string(),
        "reasoning"
    );
    assert_eq!(
        find_attr(&result, "llm.output_messages.1.message.content")
            .unwrap()
            .to_string(),
        "I computed 6 * 7."
    );
}

#[test]
fn test_llm_span_output_messages_response_only() {
    let span = make_span(
        "agent.turn",
        vec![KeyValue::text(
            "gen_ai.turn.response",
            "Just a plain response.",
        )],
    );
    let result = transform_span(span);
    assert_eq!(
        find_attr(&result, "llm.output_messages.0.message.role")
            .unwrap()
            .to_string(),
        "assistant"
    );
    assert_eq!(
        find_attr(&result, "llm.output_messages.0.message.content")
            .unwrap()
            .to_string(),
        "Just a plain response."
    );
    assert!(find_attr(&result, "llm.output_messages.1.message.role").is_none());
}

#[test]
fn test_non_llm_span_no_output_messages() {
    let span = make_span(
        "execute_tool",
        vec![KeyValue::text(
            "gen_ai.turn.reasoning",
            "some reasoning text",
        )],
    );
    let result = transform_span(span);
    assert!(find_attr(&result, "llm.output_messages.0.message.role").is_none());
    assert!(find_attr(&result, "turn.reasoning").is_none());
}

#[test]
fn test_pipeline_chat_span() {
    let spans = export(make_span(
        "chat",
        vec![
            KeyValue::text("gen_ai.system", "openai"),
            KeyValue::text("gen_ai.request.model", "gpt-4"),
            KeyValue::integer("gen_ai.usage.input_tokens", 150),
            KeyValue::integer("gen_ai.usage.output_tokens", 42),
            KeyValue::text("gen_ai.input.messages", r#"[{"role":"user","content":"hello"}]"#),
            KeyValue::text("gen_ai.output.messages", r#"[{"role":"assistant","content":"hi there"}]"#),
        ],
    ));
    let chat = find_span_by_name(&spans, "chat");
    assert_eq!(
        find_attr(chat, "openinference.span.kind")
            .unwrap()
            .to_string(),
        "LLM"
    );
    assert_eq!(find_attr(chat, "llm.system").unwrap().to_string(), "openai");
    assert_eq!(
        find_attr(chat, "llm.model_name").unwrap().to_string(),
        "gpt-4"
    );
    assert_eq!(
        find_attr(chat, "llm.token_count.prompt")
            .unwrap()
            .to_string(),
        "150"
    );
    assert_eq!(
        find_attr(chat, "llm.token_count.completion")
            .unwrap()
            .to_string(),
        "42"
    );
    assert_eq!(
        find_attr(chat, "llm.input_messages.0.message.role")
            .unwrap()
            .to_string(),
        "user"
    );
    assert_eq!(
        find_attr(chat, "llm.input_messages.0.message.content")
            .unwrap()
            .to_string(),
        "hello"
    );
    assert_eq!(
        find_attr(chat, "llm.output_messages.0.message.role")
            .unwrap()
            .to_string(),
        "assistant"
    );
    assert_eq!(
        find_attr(chat, "llm.output_messages.0.message.content")
            .unwrap()
            .to_string(),
        "hi there"
    );
    assert!(
        chat.attributes
            .iter()
            .all(|kv| !kv.key.as_str().starts_with("gen_ai.")),
        "gen_ai.* attributes should be stripped"
    );
}

#[test]
fn test_pipeline_execute_tool_span() {
    let spans = export(make_span(
        "execute_tool",
        vec![
            KeyValue::text("gen_ai.tool.name", "web_search"),
            KeyValue::text("gen_ai.tool.call.arguments", r#"{"query":"rust lang"}"#),
            KeyValue::text("gen_ai.tool.call.result", "Rust is a systems programming language"),
        ],
    ));
    let tool = find_span_by_name(&spans, "execute_tool");

    assert_eq!(
        find_attr(tool, "openinference.span.kind")
            .unwrap()
            .to_string(),
        "TOOL"
    );
    assert_eq!(
        find_attr(tool, "tool.name").unwrap().to_string(),
        "web_search"
    );
    assert!(
        find_attr(tool, "tool.parameters").is_some(),
        "tool.parameters should be present"
    );
    assert_eq!(
        find_attr(tool, "output.value").unwrap().to_string(),
        "Rust is a systems programming language"
    );
    assert!(
        tool.attributes
            .iter()
            .all(|kv| !kv.key.as_str().starts_with("gen_ai.")),
        "gen_ai.* attributes should be stripped"
    );
}

#[test]
fn test_pipeline_agent_turn_span() {
    let spans = export(make_span(
        "agent.turn",
        vec![
            KeyValue::text("gen_ai.agent.name", "SRE Agent"),
            KeyValue::integer("gen_ai.agent.turn", 2),
            KeyValue::text("gen_ai.turn.prompt", "diagnose the outage"),
            KeyValue::text("gen_ai.turn.response", "The root cause is a memory leak"),
            KeyValue::integer("gen_ai.turn.history_len", 5),
            KeyValue::integer("gen_ai.turn.tool_count", 1),
            flag("gen_ai.turn.has_tool_calls", true),
        ],
    ));
    let turn = find_span_by_name(&spans, "agent.turn");

    assert_eq!(
        find_attr(turn, "openinference.span.kind")
            .unwrap()
            .to_string(),
        "LLM"
    );
    assert_eq!(
        find_attr(turn, "agent.name").unwrap().to_string(),
        "SRE Agent"
    );
    assert_eq!(find_attr(turn, "agent.turn").unwrap().to_string(), "2");
    assert_eq!(
        find_attr(turn, "input.value").unwrap().to_string(),
        "diagnose the outage"
    );
    assert!(find_attr(turn, "output.value").is_none());
    assert_eq!(
        find_attr(turn, "llm.output_messages.0.message.content")
            .unwrap()
            .to_string(),
        "The root cause is a memory leak"
    );
    assert!(find_attr(turn, "turn.history_len").is_some());
    assert!(find_attr(turn, "turn.tool_count").is_some());
    assert!(find_attr(turn, "turn.has_tool_calls").is_some());
    assert!(
        turn.attributes
            .iter()
            .all(|kv| !kv.key.as_str().starts_with("gen_ai.")),
        "gen_ai.* attributes should be stripped"
    );
}

#[test]
fn test_pipeline_agent_turn_with_reasoning() {
    let spans = export(make_span(
        "agent.turn",
        vec![
            KeyValue::text("gen_ai.turn.prompt", "explain quantum computing"),
            KeyValue::text("gen_ai.turn.response", "Quantum computing uses qubits."),
            KeyValue::text("gen_ai.turn.reasoning", "The user wants a simple explanation."),
        ],
    ));
    let turn = find_span_by_name(&spans, "agent.turn");
    assert!(find_attr(turn, "output.value").is_none());
    assert_eq!(
        find_attr(turn, "turn.reasoning").unwrap().to_string(),
        "The user wants a simple explanation."
    );
    assert_eq!(
        find_attr(turn, "llm.output_messages.0.message.role")
            .unwrap()
            .to_string(),
        "assistant"
    );
    assert_eq!(
        find_attr(turn, "llm.output_messages.0.message.content")
            .unwrap()
            .to_string(),
        "Quantum computing uses qubits."
    );
    assert_eq!(
        find_attr(turn, "llm.output_messages.1.message.role")
            .unwrap()
            .to_string(),
        "reasoning"
    );
    assert_eq!(
        find_attr(turn, "llm.output_messages.1.message.content")
            .unwrap()
            .to_string(),
        "The user wants a simple explanation."
    );
}

#[test]
fn test_pipeline_empty_fields_not_exported() {
    let spans = export(make_span(
        "chat",
        vec![
            KeyValue::text("gen_ai.system", "openai"),
        ],
    ));
    let chat = find_span_by_name(&spans, "chat");
    assert!(
        find_attr(chat, "llm.system").is_some(),
        "llm.system should be present (was set inline)"
    );
    assert!(
        find_attr(chat, "llm.token_count.prompt").is_none(),
        "llm.token_count.prompt should NOT be present (field was Empty and never recorded)"
    );
    assert!(
        find_attr(chat, "llm.token_count.completion").is_none(),
        "llm.token_count.completion should NOT be present (field was Empty and never recorded)"
    );
}

#[test]
fn other_values_pass_through_by_their_place() {
    let other = || AttributeValue::Other {
        index: 3,
        text: "0.25".to_owned(),
    };
    let span = make_span(
        "chat",
        vec![
            KeyValue {
                key: "gen_ai.usage.input_tokens".to_owned(),
                value: other(),
            },
            KeyValue {
                key: "temperature".to_owned(),
                value: other(),
            },
        ],
    );
    let result = transform_span(span);
    assert_eq!(find_attr(&result, "llm.token_count.prompt"), Some(&other()));
    assert_eq!(find_attr(&result, "temperature"), Some(&other()));
    assert_eq!(other().to_string(), "0.25");
}

#[test]
fn messages_are_read_from_quoted_and_bare_arrays() {
    let mut out = Vec::new();
    expand_messages(r#"[{"role":"user"},{"content":"c"},7]"#, "p", &mut out);
    let keys: Vec<&str> = out.iter().map(|kv| kv.key.as_str()).collect();
    assert_eq!(keys, vec!["p.0.message.role", "p.1.message.content"]);
    assert_eq!(unquote("\"\"x\""), "x");

    let mut rows = Vec::new();
    push_messages(
        &vec![
            vec![
                ("role".to_owned(), Some("user".to_owned())),
                ("content".to_owned(), Some("hi".to_owned())),
            ],
            vec![("content".to_owned(), None)],
        ],
        "p",
        &mut rows,
    );
    assert_eq!(rows.len(), 2);
    assert_eq!(rows[1], KeyValue::text("p.0.message.content", "hi"));
}

#[test]
fn an_exporter_gives_its_inner_one_back() {
    assert_eq!(OpenInferenceExporter::new(5).into_inner(), 5);
    assert!(OpenInferenceExporter::new(()).translate_batch(vec![]).is_empty());
}

#[test]
fn the_order_of_a_turns_attributes_makes_no_difference() {
    let attribute = |key: &str, text: &str| KeyValue::text(key, text);
    let outputs = |attributes: Vec<KeyValue>| -> Vec<KeyValue> {
        let span = SpanData {
            name: "agent.turn".to_owned(),
            attributes,
        };
        transform_span(span)
            .attributes
            .into_iter()
            .filter(|kv| kv.key.starts_with("llm.output_messages."))
            .collect()
    };
    let expected = vec![
        attribute("llm.output_messages.0.message.role", "assistant"),
        attribute("llm.output_messages.0.message.content", "done"),
        attribute("llm.output_messages.1.message.role", "reasoning"),
        attribute("llm.output_messages.1.message.content", "because"),
    ];
    let response = || attribute("gen_ai.turn.response", "done");
    let reasoning = || attribute("gen_ai.turn.reasoning", "because");
    let other = || attribute("gen_ai.system", "openai");
    assert_eq!(outputs(vec![response(), other(), reasoning()]), expected);
    assert_eq!(outputs(vec![reasoning(), response(), other()]), expected);
    assert_eq!(
        outputs(vec![other(), reasoning()])[0],
        attribute("llm.output_messages.0.message.role", "reasoning")
    );
}
