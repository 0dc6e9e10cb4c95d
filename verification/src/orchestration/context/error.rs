//! Why a context value was rejected.
use vstd::prelude::*;

verus! {

/// Why a context value was rejected. Each variant names the rule that the
/// input broke; the caller holds the input.
#[derive(Debug, Clone, Copy, PartialEq, Eq, Structural)]
pub enum ContextError {
    /// The pinned goal text was empty or whitespace-only.
    EmptyGoal,
    /// A worker role name was empty or whitespace-only.
    EmptyWorkerRole,
    /// A worker-claim summary was empty or whitespace-only.
    EmptyWorkerClaimSummary,
    /// Inline evidence text was empty or whitespace-only.
    EmptyEvidenceText,
    /// Inline evidence text carried a spill footer; a spilled result must
    /// parse as an artifact-pointer entry instead.
    InlineEvidenceCarriesSpillFooter,
    /// A result preview was empty or whitespace-only.
    EmptyResultPreview,
    /// An artifact filename was empty or whitespace-only.
    EmptyArtifactFilename,
    /// A routing rationale was empty or whitespace-only.
    EmptyRoutingRationale,
    /// A final response text was empty or whitespace-only.
    EmptyFinalResponse,
    /// A clarification question was empty or whitespace-only.
    EmptyClarificationQuestion,
    /// A plan shape had no tasks; `flatten_steps` rejects empty plans, so a
    /// decision turn for one is invalid.
    EmptyPlanShape,
    /// A failure handle was derived from an empty task description.
    EmptyFailureDescription,
    /// Iteration numbers are 1-indexed; zero is not a valid iteration.
    ZeroIterationNumber,
    /// A token budget of zero tokens can render nothing.
    ZeroTokenBudget,
    /// A transitive ancestor distance below 2 describes a direct dependency
    /// and must use `DependencyRelation::Direct`.
    TransitiveDistanceIsDirect,
    /// A prior-work frame had no entries; a task with no completed
    /// ancestors gets no frame at all rather than an empty one.
    EmptyPriorWorkFrame,
    /// A named-check identity was empty or whitespace-only.
    EmptyCheckIdentity,
    /// A named-check identity exceeded the field's character bound.
    CheckIdentityTooLong,
    /// A named-check result was empty or whitespace-only; a check that was not
    /// run is `CheckOutcome::NotRun`, never a blank result.
    EmptyCheckResult,
    /// A named-check result exceeded the field's character bound; bulk output
    /// belongs in the spilled artifact, not the decisive check line.
    CheckResultTooLong,
}

impl ContextError {
    /// The message of the error.
    pub open spec fn text(self) -> Seq<char> {
        match self {
            ContextError::EmptyGoal => "pinned goal text is empty"@,
            ContextError::EmptyWorkerRole => "worker role name is empty"@,
            ContextError::EmptyWorkerClaimSummary => "worker-claim summary is empty"@,
            ContextError::EmptyEvidenceText => "inline evidence text is empty"@,
            ContextError::InlineEvidenceCarriesSpillFooter => "inline evidence text contains an artifact spill footer"@,
            ContextError::EmptyResultPreview => "result preview is empty"@,
            ContextError::EmptyArtifactFilename => "artifact filename is empty"@,
            ContextError::EmptyRoutingRationale => "routing rationale is empty"@,
            ContextError::EmptyFinalResponse => "final response text is empty"@,
            ContextError::EmptyClarificationQuestion => "clarification question is empty"@,
            ContextError::EmptyPlanShape => "plan shape has no tasks"@,
            ContextError::EmptyFailureDescription => "failure handle source description is empty"@,
            ContextError::ZeroIterationNumber => "iteration number is zero; iterations are 1-indexed"@,
            ContextError::ZeroTokenBudget => "token budget is zero"@,
            ContextError::TransitiveDistanceIsDirect => "transitive ancestor distance is below 2; distance 1 is a direct dependency"@,
            ContextError::EmptyPriorWorkFrame => "prior-work frame has no entries"@,
            ContextError::EmptyCheckIdentity => "named-check identity is empty"@,
            ContextError::CheckIdentityTooLong => "named-check identity exceeds the field bound"@,
            ContextError::EmptyCheckResult => "named-check result is empty"@,
            ContextError::CheckResultTooLong => "named-check result exceeds the field bound"@,
        }
    }

    /// The message of the error.
    pub fn message(&self) -> (r: &'static str)
        ensures
            r@ == self.text(),
    {
        match self {
            ContextError::EmptyGoal => "pinned goal text is empty",
            ContextError::EmptyWorkerRole => "worker role name is empty",
            ContextError::EmptyWorkerClaimSummary => "worker-claim summary is empty",
            ContextError::EmptyEvidenceText => "inline evidence text is empty",
            ContextError::InlineEvidenceCarriesSpillFooter => "inline evidence text contains an artifact spill footer",
            ContextError::EmptyResultPreview => "result preview is empty",
            ContextError::EmptyArtifactFilename => "artifact filename is empty",
            ContextError::EmptyRoutingRationale => "routing rationale is empty",
            ContextError::EmptyFinalResponse => "final response text is empty",
            ContextError::EmptyClarificationQuestion => "clarification question is empty",
            ContextError::EmptyPlanShape => "plan shape has no tasks",
            ContextError::EmptyFailureDescription => "failure handle source description is empty",
            ContextError::ZeroIterationNumber => "iteration number is zero; iterations are 1-indexed",
            ContextError::ZeroTokenBudget => "token budget is zero",
            ContextError::TransitiveDistanceIsDirect => "transitive ancestor distance is below 2; distance 1 is a direct dependency",
            ContextError::EmptyPriorWorkFrame => "prior-work frame has no entries",
            ContextError::EmptyCheckIdentity => "named-check identity is empty",
            ContextError::CheckIdentityTooLong => "named-check identity exceeds the field bound",
            ContextError::EmptyCheckResult => "named-check result is empty",
            ContextError::CheckResultTooLong => "named-check result exceeds the field bound",
        }
    }
}

/// No two errors have the same message.
pub proof fn law_errors_are_told_apart(a: ContextError, b: ContextError)
    requires
        a.text() == b.text(),
    ensures
        a == b,
{
    reveal_strlit("pinned goal text is empty");
    reveal_strlit("worker role name is empty");
    reveal_strlit("worker-claim summary is empty");
    reveal_strlit("inline evidence text is empty");
    reveal_strlit("inline evidence text contains an artifact spill footer");
    reveal_strlit("result preview is empty");
    reveal_strlit("artifact filename is empty");
    reveal_strlit("routing rationale is empty");
    reveal_strlit("final response text is empty");
    reveal_strlit("clarification question is empty");
    reveal_strlit("plan shape has no tasks");
    reveal_strlit("failure handle source description is empty");
    reveal_strlit("iteration number is zero; iterations are 1-indexed");
    reveal_strlit("token budget is zero");
    reveal_strlit("transitive ancestor distance is below 2; distance 1 is a direct dependency");
    reveal_strlit("prior-work frame has no entries");
    reveal_strlit("named-check identity is empty");
    reveal_strlit("named-check identity exceeds the field bound");
    reveal_strlit("named-check result is empty");
    reveal_strlit("named-check result exceeds the field bound");
    assert("pinned goal text is empty"@.len() == 25);
    assert("worker role name is empty"@.len() == 25);
    assert("worker-claim summary is empty"@.len() == 29);
    assert("inline evidence text is empty"@.len() == 29);
    assert("inline evidence text contains an artifact spill footer"@.len() == 54);
    assert("result preview is empty"@.len() == 23);
    assert("artifact filename is empty"@.len() == 26);
    assert("routing rationale is empty"@.len() == 26);
    assert("final response text is empty"@.len() == 28);
    assert("clarification question is empty"@.len() == 31);
    assert("plan shape has no tasks"@.len() == 23);
    assert("failure handle source description is empty"@.len() == 42);
    assert("iteration number is zero; iterations are 1-indexed"@.len() == 50);
    assert("token budget is zero"@.len() == 20);
    assert("transitive ancestor distance is below 2; distance 1 is a direct dependency"@.len() == 74);
    assert("prior-work frame has no entries"@.len() == 31);
    assert("named-check identity is empty"@.len() == 29);
    assert("named-check identity exceeds the field bound"@.len() == 44);
    assert("named-check result is empty"@.len() == 27);
    assert("named-check result exceeds the field bound"@.len() == 42);
    assert("pinned goal text is empty"@[0] == 'p');
    assert("worker role name is empty"@[0] == 'w');
    assert("worker-claim summary is empty"@[0] == 'w');
    assert("inline evidence text is empty"@[0] == 'i');
    assert("named-check identity is empty"@[0] == 'n');
    assert("result preview is empty"@[0] == 'r');
    assert("plan shape has no tasks"@[0] == 'p');
    assert("artifact filename is empty"@[0] == 'a');
    assert("routing rationale is empty"@[0] == 'r');
    assert("clarification question is empty"@[0] == 'c');
    assert("prior-work frame has no entries"@[0] == 'p');
    assert("failure handle source description is empty"@[0] == 'f');
    assert("named-check result exceeds the field bound"@[0] == 'n');
}

} // verus!
