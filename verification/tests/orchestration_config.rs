//! Configuration and preambles.
use aura::orchestration::config::{
    build_coordinator_preamble, build_coordinator_preamble_with, build_vector_store_context,
    build_worker_preamble, OrchestrationConfig, VectorStoreConfig,
};
use aura::orchestration::templates::{
    render_worker_task_prompt, WorkerTaskVars, ORCHESTRATOR_PREAMBLE_TEMPLATE, TOOL_GAP_DIRECTIVE,
    WORKER_PREAMBLE_TEMPLATE,
};

#[test]
fn test_build_worker_preamble_with_custom_prompt() {
    let config = OrchestrationConfig {
        worker_system_prompt: Some("Focus on data analysis.".to_string()),
        ..Default::default()
    };

    let preamble = build_worker_preamble(&config);
    assert!(preamble.contains("Focus on data analysis."));
    assert!(preamble.contains("Worker Agent"));
    assert!(!preamble.contains("%%WORKER_SYSTEM_PROMPT%%"));
}

#[test]
fn test_build_worker_preamble_without_custom_prompt() {
    let config = OrchestrationConfig::default();
    let preamble = build_worker_preamble(&config);

    assert!(preamble.contains("(No custom instructions provided)"));
    assert!(preamble.contains("Worker Agent"));
    assert!(!preamble.contains("%%WORKER_SYSTEM_PROMPT%%"));
}

#[test]
fn test_worker_preamble_template_loaded() {
    assert!(!WORKER_PREAMBLE_TEMPLATE.is_empty());
    assert!(WORKER_PREAMBLE_TEMPLATE.contains("%%WORKER_SYSTEM_PROMPT%%"));
    assert!(WORKER_PREAMBLE_TEMPLATE.contains("Worker Agent"));
}

#[test]
fn test_coordinator_preamble_injects_agent_system_prompt() {
    let preamble = build_coordinator_preamble("Focus on thorough testing.", true, false);

    // Framework instructions present
    assert!(preamble.contains("respond_directly"));
    assert!(preamble.contains("create_plan"));
    // User's system prompt injected
    assert!(preamble.contains("Focus on thorough testing."));
    // Placeholder replaced
    assert!(!preamble.contains("%%ORCHESTRATION_SYSTEM_PROMPT%%"));
}

#[test]
fn test_coordinator_preamble_with_empty_system_prompt() {
    let preamble = build_coordinator_preamble("", true, false);

    // Framework instructions still present
    assert!(preamble.contains("create_plan"));
    assert!(preamble.contains("Orchestration Coordinator"));
    assert!(!preamble.contains("%%ORCHESTRATION_SYSTEM_PROMPT%%"));
}

#[test]
fn test_orchestrator_preamble_template_loaded() {
    assert!(!ORCHESTRATOR_PREAMBLE_TEMPLATE.is_empty());
    assert!(ORCHESTRATOR_PREAMBLE_TEMPLATE.contains("%%ORCHESTRATION_SYSTEM_PROMPT%%"));
    assert!(ORCHESTRATOR_PREAMBLE_TEMPLATE.contains("%%TOOLS_SECTION%%"));
    assert!(ORCHESTRATOR_PREAMBLE_TEMPLATE.contains("%%RECON_GUIDANCE%%"));
}

#[test]
fn test_coordinator_preamble_without_recon_tools() {
    let preamble = build_coordinator_preamble("Test prompt.", false, false);

    // Should have routing tools but NOT recon tools
    assert!(preamble.contains("routing tools"));
    assert!(preamble.contains("artifact tool"));
    assert!(!preamble.contains("reconnaissance tools"));
    assert!(!preamble.contains("## Reconnaissance Guidance"));
    assert!(!preamble.contains("inspect_tool_params"));
    // Worker names clarification should always be present
    assert!(preamble.contains("Worker names vs tool names"));
}

#[test]
fn test_coordinator_preamble_with_recon_tools() {
    let preamble = build_coordinator_preamble("Test prompt.", true, false);

    assert!(preamble.contains("reconnaissance tools"));
    assert!(preamble.contains("## Reconnaissance Guidance"));
    assert!(preamble.contains("inspect_tool_params"));
}

#[test]
fn test_coordinator_preamble_with_history_tools() {
    let preamble = build_coordinator_preamble("Test prompt.", true, true);

    assert!(preamble.contains("artifact/history tools"));
    assert!(preamble.contains("list_prior_runs"));
    assert!(preamble.contains("read_artifact"));
}

#[test]
fn test_coordinator_preamble_without_history_tools() {
    let preamble = build_coordinator_preamble("Test prompt.", false, false);

    assert!(preamble.contains("artifact tool"));
    assert!(!preamble.contains("list_prior_runs"));
    assert!(preamble.contains("read_artifact"));
}

#[test]
fn test_build_vector_store_context_empty() {
    let stores: Vec<VectorStoreConfig> = vec![];
    let context = build_vector_store_context(&stores);
    assert!(context.is_empty());
}

#[test]
fn test_build_vector_store_context_single() {
    let stores = vec![VectorStoreConfig {
        name: "mezmo_docs".to_string(),
        context_prefix: Some("Mezmo documentation and procedures".to_string()),
    }];

    let context = build_vector_store_context(&stores);
    assert!(context.contains("## Available Knowledge Bases"));
    assert!(context.contains("**mezmo_docs**"));
    assert!(context.contains("Mezmo documentation and procedures"));
    assert!(context.contains("`vector_search_mezmo_docs`"));
}

#[test]
fn test_build_vector_store_context_no_description() {
    let stores = vec![VectorStoreConfig {
        name: "test_kb".to_string(),
        context_prefix: None,
    }];

    let context = build_vector_store_context(&stores);
    assert!(context.contains("**test_kb**"));
    assert!(context.contains("No description provided"));
}

#[test]
fn the_directive_on_missing_tools_can_be_left_out() {
    let with = build_coordinator_preamble_with("Test prompt.", true, true, true);
    let without = build_coordinator_preamble_with("Test prompt.", true, true, false);
    assert!(with.contains("Resolve tool gaps pragmatically"));
    assert!(!without.contains("Resolve tool gaps pragmatically"));
    assert_eq!(with, build_coordinator_preamble("Test prompt.", true, true));
    assert_eq!(with.replace(TOOL_GAP_DIRECTIVE, ""), without);
}

#[test]
fn a_workers_task_prompt_holds_context_and_task() {
    let prompt = render_worker_task_prompt(&WorkerTaskVars {
        context: "FRAME\n\n",
        your_task: "Count the pods.",
    });
    assert_eq!(prompt, "FRAME\n\nYOUR TASK\n\nCount the pods.\n");
}
