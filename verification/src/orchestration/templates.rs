//! The fixed texts that preambles are made from.
use crate::text::search::{replace, replaced};
use vstd::prelude::*;

verus! {

/// Where the user's own instructions for the coordinator go.
pub const ORCHESTRATION_SYSTEM_PROMPT: &'static str = "%%ORCHESTRATION_SYSTEM_PROMPT%%";

/// Where the list of the coordinator's tools goes.
pub const TOOLS_SECTION: &'static str = "%%TOOLS_SECTION%%";

/// Where the guidance on looking at tools goes.
pub const RECON_GUIDANCE: &'static str = "%%RECON_GUIDANCE%%";

/// Where the user's own instructions for workers go.
pub const WORKER_SYSTEM_PROMPT: &'static str = "%%WORKER_SYSTEM_PROMPT%%";

/// The coordinator's preamble.
pub const ORCHESTRATOR_PREAMBLE_TEMPLATE: &'static str = "# Orchestration Coordinator\n\nYou coordinate a team of workers. You plan and route; workers execute.\n\n%%ORCHESTRATION_SYSTEM_PROMPT%%\n\n## Tools\n\n%%TOOLS_SECTION%%\n\n%%RECON_GUIDANCE%%\n\n## Rules\n\n1. **Answer directly** with `respond_directly` where no worker is needed.\n2. **Plan** with `create_plan` where work is needed; give each task to one worker.\n3. **Ask** with `request_clarification` where the request cannot be planned as it stands.\n4. **Keep tasks small**: one task, one result.\n5. **Say what depends on what**: a task sees the results of the tasks it depends on.\n6. **Resolve tool gaps pragmatically**: If a user requests an operation with no matching tool, create a plan using the available tools and note the gap in `planning_summary`. Do NOT deliberate at length about missing capabilities — route what you can, report what you cannot.\n7. **Report** what the workers found, not how they were asked.\n";

/// A worker's preamble.
pub const WORKER_PREAMBLE_TEMPLATE: &'static str = "# Worker Agent\n\nYou carry out one task of a plan and report its result.\n\n## Instructions\n\n%%WORKER_SYSTEM_PROMPT%%\n\n## Rules\n\n1. Use your tools; do not guess at what a tool would say.\n2. Stay with your task; other tasks have other workers.\n3. Finish with `submit_result`.\n";

/// The directive on missing tools, which a run can go without.
pub const TOOL_GAP_DIRECTIVE: &'static str = "6. **Resolve tool gaps pragmatically**: If a user requests an operation with no matching tool, create a plan using the available tools and note the gap in `planning_summary`. Do NOT deliberate at length about missing capabilities — route what you can, report what you cannot.\n";

/// Stands for the prior work in a worker's task prompt.
pub const CONTEXT: &'static str = "%%CONTEXT%%";

/// Stands for the task in a worker's task prompt.
pub const YOUR_TASK: &'static str = "%%YOUR_TASK%%";

/// The prompt that a worker gets with its task.
pub const WORKER_TASK_TEMPLATE: &'static str = "%%CONTEXT%%YOUR TASK\n\n%%YOUR_TASK%%\n";

/// What goes into the coordinator's preamble.
pub struct CoordinatorPreambleVars<'a> {
    pub orchestration_system_prompt: &'a str,
    pub tools_section: &'a str,
    pub recon_guidance: &'a str,
}

/// The coordinator's preamble with its places filled, in this order.
pub open spec fn coordinator_filled(
    prompt: Seq<char>,
    tools_section: Seq<char>,
    recon_guidance: Seq<char>,
) -> Seq<char> {
    replaced(
        replaced(
            replaced(ORCHESTRATOR_PREAMBLE_TEMPLATE@, ORCHESTRATION_SYSTEM_PROMPT@, prompt),
            TOOLS_SECTION@,
            tools_section,
        ),
        RECON_GUIDANCE@,
        recon_guidance,
    )
}

/// Fills the coordinator's preamble.
pub fn render_coordinator_preamble(vars: &CoordinatorPreambleVars<'_>) -> (r: String)
    ensures
        r@ == coordinator_filled(
            vars.orchestration_system_prompt@,
            vars.tools_section@,
            vars.recon_guidance@,
        ),
{
    proof {
        reveal_strlit("%%ORCHESTRATION_SYSTEM_PROMPT%%");
        reveal_strlit("%%TOOLS_SECTION%%");
        reveal_strlit("%%RECON_GUIDANCE%%");
    }
    let prompted = replace(
        ORCHESTRATOR_PREAMBLE_TEMPLATE,
        ORCHESTRATION_SYSTEM_PROMPT,
        vars.orchestration_system_prompt,
    );
    let tooled = replace(&prompted, TOOLS_SECTION, vars.tools_section);
    replace(&tooled, RECON_GUIDANCE, vars.recon_guidance)
}

/// What goes into a worker's preamble.
pub struct WorkerPreambleVars<'a> {
    pub worker_system_prompt: &'a str,
}

/// A worker's preamble with its place filled.
pub open spec fn worker_filled(prompt: Seq<char>) -> Seq<char> {
    replaced(WORKER_PREAMBLE_TEMPLATE@, WORKER_SYSTEM_PROMPT@, prompt)
}

/// Fills a worker's preamble.
pub fn render_worker_preamble(vars: &WorkerPreambleVars<'_>) -> (r: String)
    ensures
        r@ == worker_filled(vars.worker_system_prompt@),
{
    proof {
        reveal_strlit("%%WORKER_SYSTEM_PROMPT%%");
    }
    replace(WORKER_PREAMBLE_TEMPLATE, WORKER_SYSTEM_PROMPT, vars.worker_system_prompt)
}

/// What goes into a worker's task prompt.
pub struct WorkerTaskVars<'a> {
    pub context: &'a str,
    pub your_task: &'a str,
}

/// A worker's task prompt with its places filled, in this order.
pub open spec fn task_filled(context: Seq<char>, your_task: Seq<char>) -> Seq<char> {
    replaced(replaced(WORKER_TASK_TEMPLATE@, CONTEXT@, context), YOUR_TASK@, your_task)
}

/// Fills a worker's task prompt.
pub fn render_worker_task_prompt(vars: &WorkerTaskVars<'_>) -> (r: String)
    ensures
        r@ == task_filled(vars.context@, vars.your_task@),
{
    proof {
        reveal_strlit("%%CONTEXT%%");
        reveal_strlit("%%YOUR_TASK%%");
    }
    let framed = replace(WORKER_TASK_TEMPLATE, CONTEXT, vars.context);
    replace(&framed, YOUR_TASK, vars.your_task)
}

/// The directive on missing tools is not empty.
pub proof fn lemma_directive_is_not_empty()
    ensures
        TOOL_GAP_DIRECTIVE@.len() > 0,
{
    reveal_strlit(
        "6. **Resolve tool gaps pragmatically**: If a user requests an operation with no matching tool, create a plan using the available tools and note the gap in `planning_summary`. Do NOT deliberate at length about missing capabilities — route what you can, report what you cannot.\n",
    );
}

} // verus!
