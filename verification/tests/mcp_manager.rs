//! Tool servers and the tools they offer.
use aura::json::{Json, Member};
use aura::mcp::connections::{
    connection_reason, stdio_command, ConnectFailure, ConnectionStatus, McpConfig, McpServerConfig,
    NamedServer, ServerInfo, Transport,
};
use aura::mcp::headers::{usable_headers, Header};
use aura::mcp::manager::McpManager;
use aura::mcp::schema_sanitize::{
    fix_empty_root_required, normalize_bare_boolean_schemas,
    recursive_set_additional_properties_false, sanitize_schema_for_openai,
};
use aura::mcp::tool_names::{name_from, sanitize_tool_name};
use aura::mcp::tools::{
    called, create_fallback_http_tool, object_arguments, McpToolAdaptor, ToolExecutionError,
    ToolKind,
};
use aura::mcp::types::{AuraTool, Tool};

fn text(s: &str) -> Json {
    Json::Text(s.to_owned())
}

fn members(pairs: Vec<(&str, Json)>) -> Vec<Member> {
    pairs
        .into_iter()
        .map(|(key, value)| Member {
            key: key.to_owned(),
            value,
        })
        .collect()
}

fn object(pairs: Vec<(&str, Json)>) -> Json {
    Json::Object(members(pairs))
}

fn typed(kind: &str) -> Json {
    object(vec![("type", text(kind))])
}

fn test_tool(name: &str, description: &str, schema: Vec<Member>) -> Tool {
    Tool::new(name, description, schema)
}

fn simple_schema() -> Vec<Member> {
    members(vec![
        ("type", text("object")),
        ("properties", object(vec![("param1", typed("string"))])),
    ])
}

fn http_server(name: &str) -> NamedServer {
    NamedServer {
        name: name.to_owned(),
        config: McpServerConfig::HttpStreamable {
            url: "http://127.0.0.1:1/mcp".to_owned(),
            headers: vec![],
            description: None,
        },
    }
}

#[test]
fn unreachable_http_server_is_recorded_as_failed() {
    let config = McpConfig {
        sanitize_schemas: true,
        servers: vec![http_server("pagerduty")],
    };
    let manager = McpManager::initialize_from_config(
        &config,
        vec![Err(ConnectFailure::Establish("connection refused".to_owned()))],
    );

    let info = &manager.server_info[0];
    assert_eq!(info.name, "pagerduty");
    assert!(
        matches!(info.status, ConnectionStatus::Failed(_)),
        "unreachable server should be Failed, got {:?}",
        info.status
    );
    assert_eq!(info.tools_count, 0);
    assert_eq!(info.transport, "http_streamable");

    let snapshot = manager.server_status_snapshot();
    assert_eq!(snapshot.len(), 1);
    assert_eq!(snapshot[0].server_name, "pagerduty");
    assert_eq!(snapshot[0].status, "failed");
    assert_eq!(snapshot[0].transport, "http_streamable");
    assert!(
        snapshot[0].reason.is_some(),
        "failed server should carry a reason"
    );
}

#[test]
fn a_connected_server_offers_its_tools() {
    let config = McpConfig {
        sanitize_schemas: true,
        servers: vec![http_server("logs"), http_server("empty")],
    };
    let manager = McpManager::initialize_from_config(
        &config,
        vec![
            Ok(vec![
                test_tool("get_logs", "fetch logs", simple_schema()),
                test_tool("broken", "no object", members(vec![("type", text("string"))])),
            ]),
            Ok(vec![]),
        ],
    );
    assert_eq!(manager.get_available_tool_names(), vec!["get_logs".to_owned()]);
    assert_eq!(manager.tool_definitions_iter().len(), 1);
    let snapshot = manager.server_status_snapshot();
    assert_eq!(snapshot[0].server_name, "empty");
    assert_eq!(snapshot[0].status, "connected");
    assert_eq!(snapshot[0].tools_count, 0);
    assert_eq!(snapshot[1].server_name, "logs");
    assert_eq!(snapshot[1].tools_count, 1);
    let per_server = manager.tool_names_per_server();
    assert_eq!(per_server.len(), 2);
    let logs = manager.get_tool_definition_by_server("logs");
    assert_eq!(logs.len(), 1);
    assert!(manager.get_tool_definition_by_server("nowhere").is_empty());

    let route = manager.fallback_route("get_logs").unwrap();
    assert_eq!(route.server, "logs");
    assert_eq!(route.transport, Transport::HttpStreamable);
    assert_eq!(
        manager.fallback_route("nothing").unwrap_err(),
        "Tool 'nothing' not found"
    );
    let (route, arguments) = manager
        .fallback_call("get_logs", r#"{"lines": 5, "level": "warn"}"#)
        .unwrap();
    assert_eq!(route.server, "logs");
    let mut keys: Vec<&str> = arguments.iter().map(|m| m.key.as_str()).collect();
    keys.sort_unstable();
    assert_eq!(keys, vec!["level", "lines"]);
    let lines = arguments.iter().find(|m| m.key == "lines").unwrap();
    assert_eq!(lines.value.as_u64(), Some(5));
    let (_, none) = manager.fallback_call("get_logs", "[1]").unwrap();
    assert!(none.is_empty(), "only an object has arguments");
    assert_eq!(
        manager.fallback_call("nothing", "{}").unwrap_err(),
        "Tool 'nothing' not found"
    );
    let unread = manager.fallback_call("nothing", "{oops").unwrap_err();
    assert!(unread.starts_with("Failed to parse arguments: key must be a string"), "{unread}");
    assert_eq!(
        manager.routed_call("nothing", Err("why".to_owned())).unwrap_err(),
        "Failed to parse arguments: why"
    );
    assert_eq!(manager.get_streamable_http_tools().len(), 1);
    let schemas = manager.tool_schemas_json(None);
    assert_eq!(schemas.len(), 1);
    assert!(
        schemas[0].starts_with(r#"{"function":{"description":"#) && schemas[0].ends_with(r#""type":"function"}"#),
        "{}",
        schemas[0]
    );
    assert!(manager
        .tool_schemas_json(Some(&vec!["other".to_owned()]))
        .is_empty());
}

#[test]
fn snapshot_distinguishes_connected_empty_from_failed() {
    let mut manager = McpManager::with_sanitization(true);
    manager.set_server_info(ServerInfo {
        name: "empty".to_string(),
        description: None,
        tools_count: 0,
        status: ConnectionStatus::Connected,
        transport: "http_streamable".to_string(),
    });
    manager.set_server_info(ServerInfo {
        name: "down".to_string(),
        description: None,
        tools_count: 0,
        status: ConnectionStatus::Failed("connection refused".to_string()),
        transport: "sse".to_string(),
    });

    let snapshot = manager.server_status_snapshot();
    assert_eq!(snapshot[0].server_name, "down");
    assert_eq!(snapshot[0].status, "failed");
    assert_eq!(snapshot[0].reason.as_deref(), Some("connection refused"));
    assert_eq!(snapshot[1].server_name, "empty");
    assert_eq!(snapshot[1].status, "connected");
    assert_eq!(snapshot[1].tools_count, 0);
    assert_eq!(snapshot[1].reason, None);
}

#[test]
fn test_convert_tool_valid_schema_no_sanitization() {
    let mcp_tool = test_tool("test_tool", "A test tool", simple_schema());

    let result = McpManager::convert_tool_to_rig_definition(&mcp_tool, false);

    assert!(result.is_some(), "Valid tool should convert successfully");
    let tool_def = result.unwrap();
    assert_eq!(tool_def.name, "test_tool");
    assert_eq!(tool_def.description, "A test tool");
    assert_eq!(tool_def.parameters.get("type").unwrap(), &text("object"));
}

#[test]
fn test_convert_tool_valid_schema_with_sanitization() {
    let mcp_tool = test_tool("test_tool", "A test tool", simple_schema());

    let result = McpManager::convert_tool_to_rig_definition(&mcp_tool, true);

    assert!(
        result.is_some(),
        "Valid tool should convert successfully with sanitization"
    );
    let tool_def = result.unwrap();
    assert_eq!(tool_def.name, "test_tool");
    assert_eq!(tool_def.description, "A test tool");
    assert_eq!(
        tool_def.parameters.get("additionalProperties").unwrap(),
        &Json::Bool(false)
    );
}

#[test]
fn test_convert_tool_invalid_root_type_rejected() {
    let mcp_tool = test_tool(
        "invalid_tool",
        "Tool with invalid schema",
        members(vec![("type", text("string"))]),
    );

    let result_no_sanitize = McpManager::convert_tool_to_rig_definition(&mcp_tool, false);
    assert!(
        result_no_sanitize.is_some(),
        "Without sanitization, schema passes through unchanged"
    );

    let result_with_sanitize = McpManager::convert_tool_to_rig_definition(&mcp_tool, true);
    assert!(
        result_with_sanitize.is_none(),
        "Invalid schema should be rejected when sanitization is enabled"
    );
}

#[test]
fn test_convert_tool_name_sanitization() {
    let mcp_tool = test_tool(
        "test tool with spaces",
        "Test",
        members(vec![("type", text("object"))]),
    );

    let result = McpManager::convert_tool_to_rig_definition(&mcp_tool, false);

    assert!(result.is_some());
    let tool_def = result.unwrap();
    assert_eq!(tool_def.name, "test_tool_with_spaces");
}

#[test]
fn test_convert_tool_missing_description() {
    let mut mcp_tool = test_tool("test_tool", "", members(vec![("type", text("object"))]));
    mcp_tool.description = None;

    let result = McpManager::convert_tool_to_rig_definition(&mcp_tool, false);

    assert!(result.is_some());
    let tool_def = result.unwrap();
    assert_eq!(tool_def.description, "");
}

#[test]
fn test_convert_tool_complex_nested_schema() {
    let mcp_tool = test_tool(
        "complex_tool",
        "Complex nested schema",
        members(vec![
            ("type", text("object")),
            (
                "properties",
                object(vec![(
                    "nested",
                    object(vec![
                        ("type", text("object")),
                        ("properties", object(vec![("inner", typed("string"))])),
                    ]),
                )]),
            ),
        ]),
    );

    let result = McpManager::convert_tool_to_rig_definition(&mcp_tool, true);

    assert!(result.is_some(), "Complex schema should convert");
    let tool_def = result.unwrap();

    assert_eq!(tool_def.name, "complex_tool");
    assert_eq!(tool_def.description, "Complex nested schema");
    assert_eq!(
        tool_def.parameters.get("additionalProperties").unwrap(),
        &Json::Bool(false),
        "Root should have additionalProperties: false"
    );
    let properties = tool_def.parameters.get("properties").expect("Should have properties field");
    let nested = properties.get("nested").unwrap();
    assert_eq!(nested.get("additionalProperties").unwrap(), &Json::Bool(false));
}

#[test]
fn test_convert_tool_name_starting_with_number() {
    let mcp_tool = test_tool("123_tool", "Test", members(vec![("type", text("object"))]));

    let result = McpManager::convert_tool_to_rig_definition(&mcp_tool, false);

    assert!(result.is_some());
    let tool_def = result.unwrap();
    assert_eq!(tool_def.name, "tool_123_tool");
}

/// The value of a header among those that are sent.
fn sent(headers: Vec<Header>, name: &str) -> Option<String> {
    usable_headers(headers)
        .into_iter()
        .find(|h| h.name == name)
        .map(|h| h.value)
}

fn authorization(value: &str) -> Vec<Header> {
    vec![Header {
        name: "Authorization".to_string(),
        value: value.to_string(),
    }]
}

#[test]
fn test_authorization_header_extraction() {
    let bearer_auth = sent(authorization("Bearer my-secret-token"), "Authorization");
    assert_eq!(bearer_auth, Some("Bearer my-secret-token".to_string()));

    let token_auth = sent(authorization("Token pd_abc123xyz"), "Authorization");
    assert_eq!(token_auth, Some("Token pd_abc123xyz".to_string()));

    let custom_auth = sent(authorization("CustomScheme value123"), "Authorization");
    assert_eq!(custom_auth, Some("CustomScheme value123".to_string()));

    let no_auth = sent(vec![], "Authorization");
    assert_eq!(no_auth, None);
}

#[test]
fn test_bearer_prefix_stripping_would_fail() {
    let stripped = authorization("Token pd_abc123xyz")[0]
        .value
        .strip_prefix("Bearer ")
        .map(|token| token.to_string());
    assert_eq!(stripped, None, "a bearer prefix is not there to be stripped");

    let kept = sent(authorization("Token pd_abc123xyz"), "Authorization");
    assert_eq!(
        kept,
        Some("Token pd_abc123xyz".to_string()),
        "the header keeps its scheme"
    );
}

#[test]
fn tool_names_are_made_fit() {
    assert_eq!(sanitize_tool_name("get-logs.v2"), "get-logs_v2");
    assert_eq!(sanitize_tool_name("_private_"), "private");
    assert_eq!(sanitize_tool_name("-dash"), "-dash");
    assert_eq!(sanitize_tool_name("Fit_name-2"), "Fit_name-2");
    assert_eq!(sanitize_tool_name("__"), "tool_");
    assert_eq!(sanitize_tool_name(&"a".repeat(80)), "a".repeat(64));
    // Letters and digits of any script stand.
    assert_eq!(sanitize_tool_name("größe٣"), "größe٣");
    assert_eq!(name_from("a!b", &vec![true, false, true]), "a_b");
    assert_eq!(name_from("7", &vec![true]), "tool_7");
}

#[test]
fn schemas_are_made_strict() {
    let schema = object(vec![
        ("type", text("object")),
        ("required", Json::Array(vec![])),
        (
            "properties",
            object(vec![
                ("anything", Json::Bool(true)),
                ("list", object(vec![("type", text("array")), ("items", Json::Bool(true))])),
            ]),
        ),
    ]);
    let strict = sanitize_schema_for_openai(&schema).unwrap();
    assert_eq!(strict.get("additionalProperties").unwrap(), &Json::Bool(false));
    assert!(sanitize_schema_for_openai(&typed("string")).is_err());

    let closed = recursive_set_additional_properties_false(&typed("object"));
    assert_eq!(closed.get("additionalProperties").unwrap(), &Json::Bool(false));
    let left = recursive_set_additional_properties_false(&typed("string"));
    assert_eq!(left, typed("string"));

    let normalized = normalize_bare_boolean_schemas(&schema);
    let properties = normalized.get("properties").unwrap();
    assert!(!matches!(properties.get("anything").unwrap(), Json::Bool(_)));

    let fixed = fix_empty_root_required(&schema);
    assert_ne!(fixed, schema);
}

#[test]
fn why_a_connection_failed() {
    let reason = |transport, failure| connection_reason(transport, "srv", &failure);
    assert_eq!(
        reason(Transport::Stdio, ConnectFailure::EmptyCommand),
        "Empty command for STDIO server"
    );
    assert_eq!(
        reason(Transport::Stdio, ConnectFailure::Spawn("no such file".to_owned())),
        "Failed to spawn MCP server process: no such file"
    );
    let open = reason(Transport::Sse, ConnectFailure::OpenStream("reset".to_owned()));
    assert!(open.contains("reset"), "{open}");
    let establish = reason(
        Transport::HttpStreamable,
        ConnectFailure::Establish("HTTP status: 404 Not Found: closed".to_owned()),
    );
    assert!(establish.contains("404"), "{establish}");
    let discover = reason(Transport::HttpStreamable, ConnectFailure::Discover("x".to_owned()));
    assert!(discover.contains("x"), "{discover}");
}

#[test]
fn a_program_needs_a_name() {
    let (program, args) = stdio_command(
        &vec!["npx".to_owned(), "-y".to_owned()],
        &vec!["server".to_owned()],
    )
    .unwrap();
    assert_eq!(program, "npx");
    assert_eq!(args, vec!["-y".to_owned(), "server".to_owned()]);
    assert!(stdio_command(&vec![], &vec!["server".to_owned()]).is_err());
}

#[test]
fn stdio_adaptor_runs_an_ungated_call() {
    let adaptor = |transport| {
        McpToolAdaptor::new(
            AuraTool::new(test_tool("grep", "find", simple_schema()), "fs"),
            transport,
        )
    };
    let stdio = adaptor(Transport::Stdio);
    assert_eq!(stdio.namespace(), "fs");
    assert!(stdio.may_dispatch(false));
    assert!(!stdio.may_dispatch(true));
    assert!(adaptor(Transport::HttpStreamable).may_dispatch(true));
    assert_eq!(stdio.name(), "grep");
    assert_eq!(stdio.definition().description, "find");
}

#[test]
fn how_a_call_of_a_tool_fails() {
    assert_eq!(
        called(ToolKind::Named, Err("x".to_owned())).unwrap_err().to_string(),
        "Tool execution error: MCP tool call failed: x"
    );
    assert_eq!(
        called(ToolKind::Streamable, Err("x".to_owned())).unwrap_err().to_string(),
        "Tool execution error: Tool execution failed: x"
    );
    assert_eq!(
        called(ToolKind::Fallback, Err("x".to_owned())).unwrap_err().to_string(),
        "Tool execution error: Fallback tool execution failed: x"
    );
    assert_eq!(called(ToolKind::Named, Ok("y".to_owned())).unwrap(), "y");
    assert_eq!(
        ToolExecutionError::from("why".to_owned()).to_string(),
        "Tool execution error: why"
    );
    assert!(object_arguments(Json::Null).is_err());
    assert!(object_arguments(typed("a")).is_ok());
}

#[test]
fn a_fallback_tool_has_a_name_of_its_own() {
    let tool = test_tool("grep", "find", simple_schema());
    let fallback = create_fallback_http_tool(
        "fs_grep".to_owned(),
        "grep".to_owned(),
        "fs".to_owned(),
        &tool,
        false,
    )
    .expect("the tool is offered");
    assert_eq!(fallback.unique_name, "fs_grep");
    assert_eq!(fallback.original_tool_name, "grep");
    assert_eq!(fallback.tool_definition.name, "fs_grep");
    let broken = test_tool("x", "", members(vec![("type", text("string"))]));
    assert!(create_fallback_http_tool(
        "a".to_owned(),
        "x".to_owned(),
        "fs".to_owned(),
        &broken,
        true,
    )
    .is_none());
}
