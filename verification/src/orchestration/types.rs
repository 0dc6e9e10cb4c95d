//! The plain data of a run: confidence, failure categories, worker output and
//! routing decisions.

use super::context::named_check::NamedCheck;
use vstd::prelude::*;

verus! {

/// A worker's stated confidence in its own result.
#[derive(Debug, Clone, Copy, PartialEq, Eq, Structural)]
pub enum Confidence {
    High,
    Medium,
    Low,
}

impl Confidence {
    /// The lower-case name.
    pub open spec fn name(self) -> Seq<char> {
        match self {
            Confidence::High => "high"@,
            Confidence::Medium => "medium"@,
            Confidence::Low => "low"@,
        }
    }

    /// The lower-case name.
    pub fn as_str(&self) -> (r: &'static str)
        ensures
            r@ == self.name(),
    {
        match self {
            Confidence::High => "high",
            Confidence::Medium => "medium",
            Confidence::Low => "low",
        }
    }
}

/// Why a task failed.
#[derive(Debug, Clone, Copy, PartialEq, Eq, Structural)]
pub enum FailureCategory {
    AgentTimeout,
    ContextOverflow,
    DepthExhausted,
    LoopDetected,
    ProviderOverloaded,
    ProviderAuthError,
    ProviderNotFound,
    DependencyFailed,
    SoftFailure,
    AgentError,
}

impl FailureCategory {
    /// The snake-case name.
    pub open spec fn name(self) -> Seq<char> {
        match self {
            FailureCategory::AgentTimeout => "agent_timeout"@,
            FailureCategory::ContextOverflow => "context_overflow"@,
            FailureCategory::DepthExhausted => "depth_exhausted"@,
            FailureCategory::LoopDetected => "loop_detected"@,
            FailureCategory::ProviderOverloaded => "provider_overloaded"@,
            FailureCategory::ProviderAuthError => "provider_auth_error"@,
            FailureCategory::ProviderNotFound => "provider_not_found"@,
            FailureCategory::DependencyFailed => "dependency_failed"@,
            FailureCategory::SoftFailure => "soft_failure"@,
            FailureCategory::AgentError => "agent_error"@,
        }
    }

    /// The snake-case name.
    pub fn as_str(&self) -> (r: &'static str)
        ensures
            r@ == self.name(),
    {
        match self {
            FailureCategory::AgentTimeout => "agent_timeout",
            FailureCategory::ContextOverflow => "context_overflow",
            FailureCategory::DepthExhausted => "depth_exhausted",
            FailureCategory::LoopDetected => "loop_detected",
            FailureCategory::ProviderOverloaded => "provider_overloaded",
            FailureCategory::ProviderAuthError => "provider_auth_error",
            FailureCategory::ProviderNotFound => "provider_not_found",
            FailureCategory::DependencyFailed => "dependency_failed",
            FailureCategory::SoftFailure => "soft_failure",
            FailureCategory::AgentError => "agent_error",
        }
    }
}

/// The named check that a worker submitted with its result.
#[derive(Debug, PartialEq, Eq)]
pub enum SubmittedCheck {
    /// The worker carried a check.
    Present(NamedCheck),
    /// The worker carried none.
    Absent,
    /// The worker named a check whose identity cannot be represented.
    UnrepresentableIdentity,
}

/// What a worker submitted about its own result.
#[derive(Debug, PartialEq, Eq)]
pub struct StructuredTaskOutput {
    /// The worker's distilled summary.
    pub summary: String,
    /// The worker's stated confidence.
    pub confidence: Confidence,
    /// The decisive check, where the worker carried one.
    pub named_check: SubmittedCheck,
}

/// One step of a plan as the coordinator wrote it.
#[derive(Debug, PartialEq, Eq)]
pub enum StepInput {
    /// One task for one worker.
    LeafTask { task: String, worker: Option<String> },
    /// Steps that may run side by side.
    ParallelGroup { items: Vec<StepInput> },
    /// Steps that run one after the other.
    SubChain { steps: Vec<StepInput> },
}

/// A routing decision as the coordinator wrote it.
#[derive(Debug, PartialEq, Eq)]
pub enum PlanningResponse {
    /// A plan of steps.
    StepsPlan {
        goal: String,
        steps: Vec<StepInput>,
        routing_rationale: String,
        planning_summary: String,
    },
    /// An answer without a plan.
    Direct { response: String, routing_rationale: String, response_summary: Option<String> },
    /// A question back to the user.
    Clarification { question: String, options: Option<Vec<String>>, routing_rationale: String },
}

} // verus!
