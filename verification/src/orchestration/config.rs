//! The configuration of a run, and the preambles made from it.
use super::templates::{
    coordinator_filled, lemma_directive_is_not_empty, render_coordinator_preamble,
    render_worker_preamble, worker_filled, CoordinatorPreambleVars, WorkerPreambleVars,
    TOOL_GAP_DIRECTIVE,
};
use crate::text::search::{replace, replaced};
use vstd::prelude::*;

verus! {

/// How a run stores results and what it tells of earlier runs.
#[derive(Debug, PartialEq, Eq)]
pub struct ArtifactsConfig {
    /// Where runs are stored, where they are.
    pub memory_dir: Option<String>,
    /// Above how many bytes a result is spilled.
    pub result_artifact_threshold: usize,
    /// How many bytes of a spilled result stay inline.
    pub result_summary_length: usize,
    /// Above how many bytes a tool output is promoted; zero promotes all.
    pub tool_output_artifact_threshold: usize,
    /// Above how many milliseconds a tool output is promoted; zero promotes
    /// none.
    pub tool_output_duration_threshold_ms: u64,
    /// How many earlier runs are told; zero tells of none.
    pub session_history_turns: usize,
    /// Whether completed tasks carry their tool chains.
    pub show_tool_reasoning_in_continuation: bool,
}

/// How much of the workers' tools the planning prompt shows.
#[derive(Debug, Clone, Copy, PartialEq, Eq, Structural)]
pub enum ToolVisibility {
    /// Nothing.
    Hidden,
    /// The names.
    Summary,
    /// Names and descriptions.
    Full,
}

/// The configuration of a run.
#[derive(Debug, PartialEq, Eq)]
pub struct OrchestrationConfig {
    /// Whether the run is orchestrated at all.
    pub enabled: bool,
    /// The names of the configured workers.
    pub workers: Vec<String>,
    /// What the planning prompt shows of the workers' tools.
    pub tools_in_planning: ToolVisibility,
    /// How many tools of a worker are listed.
    pub max_tools_per_worker: usize,
    /// How many planning calls a run may make.
    pub max_planning_cycles: usize,
    /// From which count a repeated call is nudged.
    pub duplicate_call_nudge_threshold: usize,
    /// From which count a repeated call is blocked.
    pub duplicate_call_block_threshold: usize,
    /// Instructions for workers without a role of their own.
    pub worker_system_prompt: Option<String>,
    /// What is stored and told.
    pub artifacts: ArtifactsConfig,
}

impl OrchestrationConfig {
    /// Above how many bytes a result is spilled.
    pub fn result_artifact_threshold(&self) -> (r: usize)
        ensures
            r == self.artifacts.result_artifact_threshold,
    {
        self.artifacts.result_artifact_threshold
    }

    /// How many bytes of a spilled result stay inline.
    pub fn result_summary_length(&self) -> (r: usize)
        ensures
            r == self.artifacts.result_summary_length,
    {
        self.artifacts.result_summary_length
    }

    /// Above how many bytes a tool output is promoted.
    pub fn tool_output_artifact_threshold(&self) -> (r: usize)
        ensures
            r == self.artifacts.tool_output_artifact_threshold,
    {
        self.artifacts.tool_output_artifact_threshold
    }

    /// Above how many milliseconds a tool output is promoted.
    pub fn tool_output_duration_threshold_ms(&self) -> (r: u64)
        ensures
            r == self.artifacts.tool_output_duration_threshold_ms,
    {
        self.artifacts.tool_output_duration_threshold_ms
    }

    /// How many earlier runs are told.
    pub fn session_history_turns(&self) -> (r: usize)
        ensures
            r == self.artifacts.session_history_turns,
    {
        self.artifacts.session_history_turns
    }
}

impl Default for OrchestrationConfig {
    /// A run that is not orchestrated.
    fn default() -> (r: OrchestrationConfig)
        ensures
            !r.enabled,
            r.workers.len() == 0,
            r.worker_system_prompt is None,
    {
        OrchestrationConfig {
            enabled: false,
            workers: Vec::new(),
            tools_in_planning: ToolVisibility::Summary,
            max_tools_per_worker: 10,
            max_planning_cycles: 3,
            duplicate_call_nudge_threshold: 3,
            duplicate_call_block_threshold: 5,
            worker_system_prompt: None,
            artifacts: ArtifactsConfig {
                memory_dir: None,
                result_artifact_threshold: 4000,
                result_summary_length: 2000,
                tool_output_artifact_threshold: 0,
                tool_output_duration_threshold_ms: 0,
                session_history_turns: 3,
                show_tool_reasoning_in_continuation: false,
            },
        }
    }
}

// ---------------------------------------------------------------------------
// Knowledge bases
// ---------------------------------------------------------------------------

/// A knowledge base that can be searched.
#[derive(Debug, PartialEq, Eq)]
pub struct VectorStoreConfig {
    pub name: String,
    /// What the knowledge base holds.
    pub context_prefix: Option<String>,
}

/// The entry of one knowledge base.
pub open spec fn store_entry(store: VectorStoreConfig) -> Seq<char> {
    "- **"@ + store.name@ + "**: "@ + match store.context_prefix {
        Some(description) => description@,
        None => "No description provided"@,
    } + "\n  Tool: `vector_search_"@ + store.name@ + "`\n\n"@
}

/// The entries of the first `n` knowledge bases.
pub open spec fn store_entries(stores: Seq<VectorStoreConfig>, n: int) -> Seq<char>
    decreases n,
{
    if n <= 0 || n > stores.len() {
        Seq::empty()
    } else {
        store_entries(stores, n - 1) + store_entry(stores[n - 1])
    }
}

/// What an agent is told of its knowledge bases; nothing where it has none.
pub open spec fn vector_store_context(stores: Seq<VectorStoreConfig>) -> Seq<char> {
    if stores.len() == 0 {
        Seq::empty()
    } else {
        "\n## Available Knowledge Bases\n\n"@
            + "You have access to the following knowledge bases for retrieval:\n\n"@
            + store_entries(stores, stores.len() as int)
    }
}

fn write_entry(store: &VectorStoreConfig) -> (r: String)
    ensures
        r@ == store_entry(*store),
{
    let mut r = "- **".to_owned();
    r.append(&store.name);
    r.append("**: ");
    match &store.context_prefix {
        Some(description) => r.append(description),
        None => r.append("No description provided"),
    }
    r.append("\n  Tool: `vector_search_");
    r.append(&store.name);
    r.append("`\n\n");
    r
}

/// What an agent is told of its knowledge bases.
pub fn build_vector_store_context(stores: &Vec<VectorStoreConfig>) -> (r: String)
    ensures
        r@ == vector_store_context(stores@),
{
    if stores.len() == 0 {
        return String::new();
    }
    let mut r = "\n## Available Knowledge Bases\n\n".to_owned();
    r.append("You have access to the following knowledge bases for retrieval:\n\n");
    let ghost head = r@;
    for i in 0..stores.len()
        invariant
            r@ == head + store_entries(stores@, i as int),
    {
        let ghost before = r@;
        r.append(&write_entry(&stores[i]));
        assert(r@ =~= head + (store_entries(stores@, i as int) + store_entry(stores@[i as int])));
    }
    r
}

// ---------------------------------------------------------------------------
// Preambles
// ---------------------------------------------------------------------------

/// The tools that show a run's own results, where earlier runs are told.
pub const HISTORY_TOOLS: &'static str = "two **artifact/history tools** (`read_artifact`, `list_prior_runs`)";

/// The tool that shows a run's own results.
pub const ARTIFACT_TOOL: &'static str = "one **artifact tool** (`read_artifact`)";

/// How a worker's name differs from a tool's.
pub const NAMES_GUIDANCE: &'static str = "**Worker names vs tool names**: The worker names listed below (e.g., \"arithmetic\", \"statistics\") are role assignments for task routing — they are NOT callable tools. Only the tools listed under each worker (e.g., \"add\", \"mean\", \"sin\") are MCP tools that workers can execute.";

/// When to look at a tool's parameters, before how the names differ.
pub const LOOKING_GUIDANCE: &'static str = "## Reconnaissance Guidance\n\nTool names and worker capabilities are already listed in the planning context below. You do NOT need to call `list_tools` or `inspect_tool_params` to discover what's available — that information is already provided to you.\n\nOnly call `inspect_tool_params` when you need the **exact parameter schema** for a tool (e.g., to decide between two similar tools based on their parameters). In most cases, the tool name and worker description are sufficient for planning.\n\n**Budget awareness**: Each planning attempt has a limited number of tool calls. Prioritize calling a routing tool (`respond_directly`, `create_plan`, or `request_clarification`) over reconnaissance. Do not spend multiple turns inspecting tools.\n\n";

/// The coordinator's tools.
pub open spec fn tools_told(include_recon_tools: bool, include_history_tools: bool) -> Seq<char> {
    let artifact_tools = if include_history_tools {
        HISTORY_TOOLS@
    } else {
        ARTIFACT_TOOL@
    };
    if include_recon_tools {
        "You have three **routing tools** (`respond_directly`, `create_plan`, `request_clarification`), two **reconnaissance tools** (`list_tools`, `inspect_tool_params`), and "@
            + artifact_tools + ". Call exactly one routing tool per query."@
    } else {
        "You have three **routing tools** (`respond_directly`, `create_plan`, `request_clarification`) and "@
            + artifact_tools + ". Call exactly one routing tool per query."@
    }
}

/// The guidance on looking at tools.
pub open spec fn guidance_told(include_recon_tools: bool) -> Seq<char> {
    if include_recon_tools {
        LOOKING_GUIDANCE@ + NAMES_GUIDANCE@
    } else {
        NAMES_GUIDANCE@
    }
}

/// The coordinator's preamble.
pub open spec fn coordinator_preamble(
    agent_system_prompt: Seq<char>,
    include_recon_tools: bool,
    include_history_tools: bool,
    escape_hatch: bool,
) -> Seq<char> {
    let whole = coordinator_filled(
        agent_system_prompt,
        tools_told(include_recon_tools, include_history_tools),
        guidance_told(include_recon_tools),
    );
    if escape_hatch {
        whole
    } else {
        replaced(whole, TOOL_GAP_DIRECTIVE@, Seq::empty())
    }
}

fn tell_tools(include_recon_tools: bool, include_history_tools: bool) -> (r: String)
    ensures
        r@ == tools_told(include_recon_tools, include_history_tools),
{
    let mut r = if include_recon_tools {
        "You have three **routing tools** (`respond_directly`, `create_plan`, `request_clarification`), two **reconnaissance tools** (`list_tools`, `inspect_tool_params`), and ".to_owned()
    } else {
        "You have three **routing tools** (`respond_directly`, `create_plan`, `request_clarification`) and ".to_owned()
    };
    if include_history_tools {
        r.append(HISTORY_TOOLS);
    } else {
        r.append(ARTIFACT_TOOL);
    }
    r.append(". Call exactly one routing tool per query.");
    r
}

fn tell_guidance(include_recon_tools: bool) -> (r: String)
    ensures
        r@ == guidance_told(include_recon_tools),
{
    if include_recon_tools {
        let mut r = LOOKING_GUIDANCE.to_owned();
        r.append(NAMES_GUIDANCE);
        r
    } else {
        NAMES_GUIDANCE.to_owned()
    }
}

/// The coordinator's preamble: the fixed instructions around the user's own.
/// Without the escape hatch, the directive on missing tools is left out.
pub fn build_coordinator_preamble_with(
    agent_system_prompt: &str,
    include_recon_tools: bool,
    include_history_tools: bool,
    escape_hatch: bool,
) -> (r: String)
    ensures
        r@ == coordinator_preamble(
            agent_system_prompt@,
            include_recon_tools,
            include_history_tools,
            escape_hatch,
        ),
{
    let tools_section = tell_tools(include_recon_tools, include_history_tools);
    let recon_guidance = tell_guidance(include_recon_tools);
    let preamble = render_coordinator_preamble(
        &CoordinatorPreambleVars {
            orchestration_system_prompt: agent_system_prompt,
            tools_section: &tools_section,
            recon_guidance: &recon_guidance,
        },
    );
    if escape_hatch {
        preamble
    } else {
        proof {
            reveal_strlit("");
            lemma_directive_is_not_empty();
            assert(""@ =~= Seq::<char>::empty());
        }
        replace(&preamble, TOOL_GAP_DIRECTIVE, "")
    }
}

/// The coordinator's preamble, with the directive on missing tools.
pub fn build_coordinator_preamble(
    agent_system_prompt: &str,
    include_recon_tools: bool,
    include_history_tools: bool,
) -> (r: String)
    ensures
        r@ == coordinator_preamble(
            agent_system_prompt@,
            include_recon_tools,
            include_history_tools,
            true,
        ),
{
    build_coordinator_preamble_with(
        agent_system_prompt,
        include_recon_tools,
        include_history_tools,
        true,
    )
}

/// What a worker is told where the user says nothing.
pub const NO_CUSTOM_INSTRUCTIONS: &'static str = "(No custom instructions provided)";

/// A worker's preamble.
pub fn build_worker_preamble(config: &OrchestrationConfig) -> (r: String)
    ensures
        r@ == worker_filled(
            match config.worker_system_prompt {
                Some(prompt) => prompt@,
                None => NO_CUSTOM_INSTRUCTIONS@,
            },
        ),
{
    match &config.worker_system_prompt {
        Some(prompt) => render_worker_preamble(
            &WorkerPreambleVars { worker_system_prompt: prompt },
        ),
        None => render_worker_preamble(
            &WorkerPreambleVars { worker_system_prompt: NO_CUSTOM_INSTRUCTIONS },
        ),
    }
}

} // verus!
