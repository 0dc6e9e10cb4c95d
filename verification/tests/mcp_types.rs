//! Tools as they are offered and published.
use aura::json::{Json, Member};
use aura::mcp::glob::{glob_match, GlobPattern};
use aura::mcp::types::{
    AuraTool, Icon, McpToolAnnotations, McpToolOverview, Tool, ToolAnnotations,
};

fn members(key: &str, value: &str) -> Vec<Member> {
    vec![Member {
        key: key.to_owned(),
        value: Json::Text(value.to_owned()),
    }]
}

fn plain_tool(name: &str) -> Tool {
    Tool::new(name, "a test tool", vec![])
}

fn fully_populated_tool() -> Tool {
    Tool {
        name: "get_logs".to_owned(),
        title: Some("Get Logs".to_owned()),
        description: Some("fetch logs".to_owned()),
        input_schema: members("type", "object"),
        output_schema: Some(members("type", "string")),
        annotations: Some(ToolAnnotations {
            title: Some("Get Logs".to_owned()),
            read_only_hint: Some(true),
            destructive_hint: Some(false),
            idempotent_hint: Some(true),
            open_world_hint: Some(false),
        }),
        icons: Some(vec![Icon {
            src: "https://example.invalid/icon.png".to_owned(),
            mime_type: Some("image/png".to_owned()),
            sizes: Some(vec!["48x48".to_owned()]),
        }]),
        meta: Some(members("audit", "on")),
    }
}

fn glob(pattern: &str) -> GlobPattern {
    GlobPattern::new(pattern)
}

#[test]
fn name_and_namespace_are_tracked_separately() {
    let tool = AuraTool::new(plain_tool("pipeline"), "mezmo");
    assert_eq!(tool.name().to_string(), "pipeline");
    assert_eq!(tool.namespace().to_string(), "mezmo");
}

#[test]
fn name_is_read_from_either_cow_variant_of_the_rmcp_name() {
    let borrowed = AuraTool::new(plain_tool("list_pods"), "k8s");
    assert_eq!(borrowed.name().as_str(), "list_pods");

    let owned = AuraTool::new(plain_tool(&String::from("list_pods")), "k8s");
    assert_eq!(owned.name().as_str(), "list_pods");
}

#[test]
fn matches_bare_pattern_across_any_namespace() {
    let glob = glob("get_logs");
    let a = AuraTool::new(plain_tool("get_logs"), "mezmo");
    let b = AuraTool::new(plain_tool("get_logs"), "k8s");
    assert!(a.is_match(&glob));
    assert!(b.is_match(&glob));
}

#[test]
fn matches_namespace_scoped_pattern() {
    let glob = glob("mezmo:get_logs");
    let mezmo = AuraTool::new(plain_tool("get_logs"), "mezmo");
    let k8s = AuraTool::new(plain_tool("get_logs"), "k8s");
    assert!(mezmo.is_match(&glob));
    assert!(!k8s.is_match(&glob));
}

#[test]
fn description_and_schema_pass_through_from_inner_tool() {
    let tool = AuraTool::new(plain_tool("pipeline"), "mezmo");
    assert_eq!(tool.description(), Some("a test tool"));
    assert_eq!(tool.input_schema(), Json::Object(vec![]));
}

#[test]
fn raw_and_input_schema_expose_the_inner_tool() {
    let tool = AuraTool::new(fully_populated_tool(), "mezmo");
    assert_eq!(tool.raw(), &fully_populated_tool());
    assert_eq!(tool.input_schema(), Json::Object(members("type", "object")));
}

#[test]
fn description_is_none_when_the_server_omits_it() {
    let mut inner = plain_tool("pipeline");
    inner.description = None;
    let tool = AuraTool::new(inner, "mezmo");
    assert_eq!(tool.description(), None);
}

#[test]
fn matches_wildcard_patterns_in_either_position() {
    let tool = AuraTool::new(plain_tool("get_logs"), "mezmo");
    assert!(tool.is_match(&glob("mezmo:*")));
    assert!(tool.is_match(&glob("*:get_logs")));
    assert!(tool.is_match(&glob("get_*")));
    assert!(!tool.is_match(&glob("k8s:*")));
}

#[test]
fn into_overview_carries_every_field_across() {
    let overview: McpToolOverview = AuraTool::new(fully_populated_tool(), "mezmo").into_overview();
    assert_eq!(overview.name, "get_logs");
    assert_eq!(overview.title.as_deref(), Some("Get Logs"));
    assert_eq!(overview.description.as_deref(), Some("fetch logs"));
    assert_eq!(
        overview.input_schema,
        Some(Json::Object(members("type", "object")))
    );
    assert_eq!(
        overview.output_schema,
        Some(Json::Object(members("type", "string")))
    );
    assert_eq!(overview.meta, Some(Json::Object(members("audit", "on"))));
    assert_eq!(
        overview.annotations,
        Some(McpToolAnnotations {
            title: Some("Get Logs".to_owned()),
            read_only_hint: Some(true),
            destructive_hint: Some(false),
            idempotent_hint: Some(true),
            open_world_hint: Some(false),
        })
    );
}

#[test]
fn into_overview_drops_icons() {
    let with_icons = AuraTool::new(fully_populated_tool(), "mezmo").into_overview();
    let mut bare = fully_populated_tool();
    bare.icons = None;
    let without_icons = AuraTool::new(bare, "mezmo").into_overview();
    assert_eq!(with_icons, without_icons);
    assert!(!format!("{with_icons:?}").contains("icon"));
}

#[test]
fn into_overview_publishes_the_bare_name() {
    let overview = AuraTool::new(plain_tool("get_logs"), "mezmo").into_overview();
    assert_eq!(overview.name, "get_logs");
}

#[test]
fn into_overview_leaves_absent_fields_unset_but_always_sets_input_schema() {
    let overview = AuraTool::new(plain_tool("pipeline"), "mezmo").into_overview();
    assert_eq!(overview.title, None);
    assert_eq!(overview.output_schema, None);
    assert_eq!(overview.annotations, None);
    assert_eq!(overview.meta, None);
    assert_eq!(overview.input_schema, Some(Json::Object(vec![])));
}

#[test]
fn stars_match_any_run_of_characters() {
    assert!(glob_match("*", ""));
    assert!(glob_match("a*c", "abbbc"));
    assert!(glob_match("a*b*c", "a-b-b-c"));
    assert!(!glob_match("a*c", "ab"));
    assert!(!glob_match("", "a"));
    assert!(glob_match("plain", "plain"));
    assert!(!glob("ns:tool").matches(None, "tool"));
}
