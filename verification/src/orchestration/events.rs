//! What a run tells of its progress.
use crate::json::Json;
use vstd::prelude::*;

verus! {

/// How a query that led to a plan was routed.
#[derive(Debug, Clone, Copy, PartialEq, Eq, Structural)]
pub enum RoutingMode {
    /// To a single worker.
    Routed,
    /// To several tasks.
    Orchestrated,
}

impl RoutingMode {
    /// How a plan of so many tasks was routed.
    pub fn for_plan(task_count: usize) -> (r: RoutingMode)
        ensures
            r == if task_count == 1 {
                RoutingMode::Routed
            } else {
                RoutingMode::Orchestrated
            },
    {
        if task_count == 1 {
            RoutingMode::Routed
        } else {
            RoutingMode::Orchestrated
        }
    }
}

/// What a run tells of its progress.
#[derive(Debug, PartialEq, Eq)]
#[allow(inconsistent_fields)]
pub enum OrchestratorEvent {
    /// A plan was made.
    PlanCreated {
        goal: String,
        tasks: Vec<String>,
        routing_mode: RoutingMode,
        routing_rationale: String,
        planning_response: String,
    },
    /// The coordinator answered by itself.
    DirectAnswer { response: String, routing_rationale: String },
    /// The coordinator asks the user.
    ClarificationNeeded {
        question: String,
        options: Option<Vec<String>>,
        routing_rationale: String,
    },
    TaskStarted {
        task_id: usize,
        description: String,
        orchestrator_id: String,
        worker_id: String,
    },
    TaskCompleted {
        task_id: usize,
        success: bool,
        duration_ms: u64,
        orchestrator_id: String,
        worker_id: String,
        /// The output, or what went wrong.
        result: String,
    },
    /// One round of planning and executing is over; rounds count from one.
    IterationComplete {
        iteration: usize,
        will_replan: bool,
        reasoning: String,
        gaps: Vec<String>,
    },
    ReplanStarted {
        iteration: usize,
        /// Who asked for it: the coordinator, or a failure.
        trigger: String,
    },
    /// The results of a round are put together for the coordinator.
    Synthesizing { iteration: usize },
    WorkerReasoning { task_id: usize, worker_id: String, content: String },
    ToolCallStarted {
        task_id: Option<usize>,
        tool_call_id: String,
        tool_name: String,
        worker_id: String,
        arguments: Json,
    },
    ToolCallCompleted {
        task_id: Option<usize>,
        tool_call_id: String,
        success: bool,
        duration_ms: u64,
        /// The output, or what went wrong.
        result: String,
    },
}

} // verus!
