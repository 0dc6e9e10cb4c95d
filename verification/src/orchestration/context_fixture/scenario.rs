//! What a recorded request was made from.
//!
//! Each constructor takes only what a run can come to, and says why it refuses
//! the rest.
use crate::orchestration::config::{OrchestrationConfig, ToolVisibility, VectorStoreConfig};
use crate::orchestration::context::{
    ContextError, EvidenceText, PinnedGoal, ResultPreview, SpilledArtifact, WorkerClaim,
};
use crate::orchestration::context::evidence::footer_text;
use crate::orchestration::plan::{all_pending, flat_chain, into_plan, planned, Plan, Planned};
use crate::orchestration::types::{FailureCategory, PlanningResponse};
use crate::text::numerals::{numeral, usize_text};
use crate::text::same;
use crate::text::sorting::{le, text_le};
use vstd::prelude::*;

verus! {

// ---------------------------------------------------------------------------
// Errors
// ---------------------------------------------------------------------------

/// Why a scenario is refused.
#[derive(Debug, PartialEq, Eq)]
#[allow(inconsistent_fields)]
pub enum FixtureError {
    /// A value of the context was refused.
    Context(ContextError),
    /// A decision that ends the run stands in the middle of it.
    TerminalDecisionMidThread,
    /// The steps of a decision hold no task.
    UnflattenablePlan,
    /// There are not as many outcomes as tasks.
    OutcomeCountMismatch { tasks: usize, outcomes: usize },
    /// A summary of failures where nothing failed.
    FailureSummaryWithoutFailure,
    /// A continuation of nothing.
    EmptyContinuationThread,
    /// No planning call is left.
    IterationsExhaustBudget { iterations: usize, budget: usize },
    /// No planning call at all.
    ZeroPlanningBudget,
    /// Tools for looking at tools, where the tools are listed already.
    ReconRequiresUninlinedTools,
    /// A history without runs.
    EmptySessionHistory,
    /// A history that does not begin with the latest run.
    SessionHistoryNotRecentFirst,
    /// A task completed by a worker that is not configured.
    CompletedTaskUnknownWorker { task_id: usize, worker: String },
    /// A frame of prior work without prior work.
    FrameHasNoCompletedAncestor { task_id: usize },
}

impl FixtureError {
    /// The error in words.
    pub open spec fn text(self) -> Seq<char> {
        match self {
            FixtureError::Context(e) => "context value rejected: "@ + e.text(),
            FixtureError::TerminalDecisionMidThread => {
                "mid-thread decision must be create_plan; terminal decisions end the run"@
            },
            FixtureError::UnflattenablePlan => {
                "plan decision steps do not flatten into an executable plan"@
            },
            FixtureError::OutcomeCountMismatch { tasks, outcomes } => {
                "iteration outcomes ("@ + numeral(outcomes as nat)
                    + ") do not match the decision's task count ("@ + numeral(tasks as nat) + ")"@
            },
            FixtureError::FailureSummaryWithoutFailure => {
                "failure summary requires at least one failed or blocked task outcome"@
            },
            FixtureError::EmptyContinuationThread => {
                "continuation thread has no completed iterations"@
            },
            FixtureError::IterationsExhaustBudget { iterations, budget } => {
                numeral(iterations as nat)
                    + " completed iterations leave no planning call within budget "@ + numeral(
                    budget as nat,
                )
            },
            FixtureError::ZeroPlanningBudget => "planning budget is zero"@,
            FixtureError::ReconRequiresUninlinedTools => {
                "recon tools require tools_in_planning = none"@
            },
            FixtureError::EmptySessionHistory => {
                "session-history fixture has no prior-run manifests"@
            },
            FixtureError::SessionHistoryNotRecentFirst => {
                "session-history manifests must be sorted most-recent-first"@
            },
            FixtureError::CompletedTaskUnknownWorker { task_id, worker } => {
                "task "@ + numeral(task_id as nat) + " completed under unknown worker '"@ + worker@
                    + "'"@
            },
            FixtureError::FrameHasNoCompletedAncestor { task_id } => {
                "populated frame fixture has no completed ancestor for task "@ + numeral(
                    task_id as nat,
                )
            },
        }
    }

    /// The error in words.
    pub fn to_string(&self) -> (r: String)
        ensures
            r@ == self.text(),
    {
        match self {
            FixtureError::Context(e) => {
                let mut r = "context value rejected: ".to_owned();
                r.append(e.message());
                r
            },
            FixtureError::TerminalDecisionMidThread => {
                "mid-thread decision must be create_plan; terminal decisions end the run".to_owned()
            },
            FixtureError::UnflattenablePlan => {
                "plan decision steps do not flatten into an executable plan".to_owned()
            },
            FixtureError::OutcomeCountMismatch { tasks, outcomes } => {
                let mut r = "iteration outcomes (".to_owned();
                r.append(&usize_text(*outcomes));
                r.append(") do not match the decision's task count (");
                r.append(&usize_text(*tasks));
                r.append(")");
                r
            },
            FixtureError::FailureSummaryWithoutFailure => {
                "failure summary requires at least one failed or blocked task outcome".to_owned()
            },
            FixtureError::EmptyContinuationThread => {
                "continuation thread has no completed iterations".to_owned()
            },
            FixtureError::IterationsExhaustBudget { iterations, budget } => {
                let mut r = usize_text(*iterations);
                r.append(" completed iterations leave no planning call within budget ");
                r.append(&usize_text(*budget));
                r
            },
            FixtureError::ZeroPlanningBudget => "planning budget is zero".to_owned(),
            FixtureError::ReconRequiresUninlinedTools => {
                "recon tools require tools_in_planning = none".to_owned()
            },
            FixtureError::EmptySessionHistory => {
                "session-history fixture has no prior-run manifests".to_owned()
            },
            FixtureError::SessionHistoryNotRecentFirst => {
                "session-history manifests must be sorted most-recent-first".to_owned()
            },
            FixtureError::CompletedTaskUnknownWorker { task_id, worker } => {
                let mut r = "task ".to_owned();
                r.append(&usize_text(*task_id));
                r.append(" completed under unknown worker '");
                r.append(worker);
                r.append("'");
                r
            },
            FixtureError::FrameHasNoCompletedAncestor { task_id } => {
                let mut r = "populated frame fixture has no completed ancestor for task ".to_owned();
                r.append(&usize_text(*task_id));
                r
            },
        }
    }
}

// ---------------------------------------------------------------------------
// The coordinator
// ---------------------------------------------------------------------------

/// How many planning calls a run may make; at least one.
#[derive(Debug, Clone, Copy, PartialEq, Eq)]
pub struct PlanningBudget {
    cycles: usize,
}

impl PlanningBudget {
    #[verifier::type_invariant]
    spec fn is_positive(self) -> bool {
        self.cycles > 0
    }

    /// The number of planning calls.
    pub closed spec fn count(self) -> usize {
        self.cycles
    }

    /// A budget of so many planning calls.
    pub fn new(max_planning_cycles: usize) -> (r: Result<PlanningBudget, FixtureError>)
        ensures
            match r {
                Ok(budget) => max_planning_cycles > 0 && budget.count() == max_planning_cycles,
                Err(e) => max_planning_cycles == 0 && e is ZeroPlanningBudget,
            },
    {
        if max_planning_cycles == 0 {
            Err(FixtureError::ZeroPlanningBudget)
        } else {
            Ok(PlanningBudget { cycles: max_planning_cycles })
        }
    }

    /// The number of planning calls.
    pub fn get(&self) -> (r: usize)
        ensures
            r == self.count(),
            r > 0,
    {
        proof {
            use_type_invariant(self);
        }
        self.cycles
    }
}

/// Whether the coordinator has the tools for looking at tools.
#[derive(Debug, Clone, Copy, PartialEq, Eq, Structural)]
pub enum ReconTools {
    Included,
    Excluded,
}

/// Whether the coordinator has the tools for looking at earlier runs.
#[derive(Debug, Clone, Copy, PartialEq, Eq, Structural)]
pub enum HistoryTools {
    Included,
    Excluded,
}

/// The coordinator's optional tools. Its preamble and its tools are both made
/// from this.
#[derive(Debug, Clone, Copy, PartialEq, Eq, Structural)]
pub struct CoordinatorToolConfig {
    pub recon: ReconTools,
    pub history: HistoryTools,
}

/// What is recorded of an earlier run.
#[derive(Debug, PartialEq, Eq)]
pub struct RunManifest {
    pub run_id: String,
    pub session_id: Option<String>,
    /// The time of the run, in a form whose order is that of time.
    pub timestamp: String,
    pub goal: String,
    pub iterations: usize,
    pub outcome: Option<String>,
    pub response_summary: Option<String>,
}

/// The earlier runs of a session, the latest first; at least one.
#[derive(Debug)]
pub struct SessionHistoryFixture {
    manifests: Vec<RunManifest>,
}

/// Whether no run is followed by a later one.
pub open spec fn recent_first(manifests: Seq<RunManifest>) -> bool {
    forall|i: int|
        #![trigger manifests[i]]
        0 <= i < manifests.len() - 1 ==> text_le(
            manifests[i + 1].timestamp@,
            manifests[i].timestamp@,
        )
}

impl SessionHistoryFixture {
    #[verifier::type_invariant]
    spec fn is_history(self) -> bool {
        self.manifests@.len() > 0 && recent_first(self.manifests@)
    }

    /// The runs.
    pub closed spec fn runs(self) -> Seq<RunManifest> {
        self.manifests@
    }

    /// A history of the given runs.
    pub fn new(manifests: Vec<RunManifest>) -> (r: Result<SessionHistoryFixture, FixtureError>)
        ensures
            match r {
                Ok(history) => manifests@.len() > 0 && recent_first(manifests@) && history.runs()
                    == manifests@,
                Err(FixtureError::EmptySessionHistory) => manifests@.len() == 0,
                Err(FixtureError::SessionHistoryNotRecentFirst) => manifests@.len() > 0
                    && !recent_first(manifests@),
                Err(_) => false,
            },
    {
        if manifests.len() == 0 {
            return Err(FixtureError::EmptySessionHistory);
        }
        for i in 0..manifests.len() - 1
            invariant
                manifests.len() > 0,
                forall|j: int|
                    #![trigger manifests@[j]]
                    0 <= j < i ==> text_le(
                        manifests@[j + 1].timestamp@,
                        manifests@[j].timestamp@,
                    ),
        {
            if !le(&manifests[i + 1].timestamp, &manifests[i].timestamp) {
                assert(!text_le(
                    manifests@[i as int + 1].timestamp@,
                    manifests@[i as int].timestamp@,
                ));
                return Err(FixtureError::SessionHistoryNotRecentFirst);
            }
        }
        Ok(SessionHistoryFixture { manifests })
    }

    /// The runs, the latest first.
    pub fn manifests(&self) -> (r: &[RunManifest])
        ensures
            r@ == self.runs(),
            r@.len() > 0,
            recent_first(r@),
    {
        proof {
            use_type_invariant(self);
        }
        self.manifests.as_slice()
    }
}

/// What the coordinator's preamble is made from.
#[derive(Debug)]
pub struct PreambleFixture {
    /// The user's own instructions.
    pub playbook: String,
    pub tools: CoordinatorToolConfig,
    /// The catalog of skills, where there is one.
    pub skill_catalog: Option<String>,
    pub vector_stores: Vec<VectorStoreConfig>,
    pub session_history: Option<SessionHistoryFixture>,
}

/// The configured workers, and the vector stores that they can be given.
#[derive(Debug)]
pub struct WorkerRosterFixture {
    config: OrchestrationConfig,
    vector_catalog: Vec<VectorStoreConfig>,
}

impl WorkerRosterFixture {
    /// The configuration.
    pub closed spec fn settings(self) -> OrchestrationConfig {
        self.config
    }

    /// The vector stores.
    pub closed spec fn stores(self) -> Seq<VectorStoreConfig> {
        self.vector_catalog@
    }

    /// A roster of the configured workers.
    pub fn new(config: OrchestrationConfig, vector_catalog: Vec<VectorStoreConfig>) -> (r:
        WorkerRosterFixture)
        ensures
            r.settings() == config,
            r.stores() == vector_catalog@,
    {
        WorkerRosterFixture { config, vector_catalog }
    }

    /// The vector stores.
    pub fn vector_catalog(&self) -> (r: &Vec<VectorStoreConfig>)
        ensures
            r@ == self.stores(),
    {
        &self.vector_catalog
    }

    /// The configuration.
    pub fn config(&self) -> (r: &OrchestrationConfig)
        ensures
            *r == self.settings(),
    {
        &self.config
    }
}

/// A decision after which the run goes on: a plan of at least one task.
#[derive(Debug)]
pub struct PlanDecision {
    response: PlanningResponse,
}

/// The tasks that a decision comes to; none for one that ends the run.
pub open spec fn decided_tasks(response: PlanningResponse) -> Seq<Planned> {
    match response {
        PlanningResponse::StepsPlan { steps, .. } => flat_chain(
            steps@,
            steps@.len() as int,
            0,
            Seq::empty(),
        ).tasks,
        _ => Seq::empty(),
    }
}

impl PlanDecision {
    #[verifier::type_invariant]
    spec fn goes_on(self) -> bool {
        self.response is StepsPlan && decided_tasks(self.response).len() > 0
    }

    /// The decision as the coordinator wrote it.
    pub closed spec fn written(self) -> PlanningResponse {
        self.response
    }

    /// A decision after which the run goes on.
    pub fn new(decision: PlanningResponse) -> (r: Result<PlanDecision, FixtureError>)
        ensures
            match r {
                Ok(d) => d.written() == decision && decision is StepsPlan && decided_tasks(
                    decision,
                ).len() > 0,
                Err(FixtureError::TerminalDecisionMidThread) => !(decision is StepsPlan),
                Err(FixtureError::UnflattenablePlan) => decision is StepsPlan && decided_tasks(
                    decision,
                ).len() == 0,
                Err(_) => false,
            },
    {
        let flattens = match &decision {
            PlanningResponse::StepsPlan { goal, steps, .. } => into_plan(goal, steps).is_some(),
            _ => {
                return Err(FixtureError::TerminalDecisionMidThread);
            },
        };
        if flattens {
            Ok(PlanDecision { response: decision })
        } else {
            Err(FixtureError::UnflattenablePlan)
        }
    }

    /// The decision as the coordinator wrote it.
    pub fn as_response(&self) -> (r: &PlanningResponse)
        ensures
            *r == self.written(),
    {
        &self.response
    }

    /// The plan that the decision makes.
    pub fn plan(&self) -> (r: Plan)
        ensures
            planned(r.tasks@) == decided_tasks(self.written()),
            all_pending(r.tasks@),
            r.tasks@.len() > 0,
            self.written() matches PlanningResponse::StepsPlan { goal, .. } && r.goal@ == goal@,
    {
        proof {
            use_type_invariant(self);
        }
        match &self.response {
            PlanningResponse::StepsPlan { goal, steps, .. } => match into_plan(goal, steps) {
                Some(plan) => {
                    assert(planned(plan.tasks@).len() == plan.tasks@.len());
                    plan
                },
                None => Plan::new(""),
            },
            _ => Plan::new(""),
        }
    }
}

// ---------------------------------------------------------------------------
// How tasks ended
// ---------------------------------------------------------------------------

/// What stands before the pointer of a spilled result.
#[derive(Debug, PartialEq, Eq)]
#[allow(inconsistent_fields)]
pub enum SpilledStandIn {
    /// The worker's own summary.
    ClaimEcho { claim: WorkerClaim },
    /// The start of the result, with the worker's claim where there is one.
    RawPreview { preview: ResultPreview, claim: Option<WorkerClaim> },
    /// Nothing.
    NoPreview,
}

impl SpilledStandIn {
    /// The text before the pointer.
    pub open spec fn text(self) -> Seq<char> {
        match self {
            SpilledStandIn::ClaimEcho { claim } => claim.summary_text(),
            SpilledStandIn::RawPreview { preview, claim } => preview@,
            SpilledStandIn::NoPreview => Seq::empty(),
        }
    }
}

/// The result of a completed task, as it is stored.
#[derive(Debug, PartialEq, Eq)]
pub enum CompletedResultFixture {
    /// The result itself.
    Inline { result: EvidenceText, claim: Option<WorkerClaim> },
    /// What stands for a result that is stored elsewhere, and where it is.
    Spilled { stand_in: SpilledStandIn, artifact: SpilledArtifact },
}

impl CompletedResultFixture {
    /// The result as it is stored.
    pub open spec fn stored(self) -> Seq<char> {
        match self {
            CompletedResultFixture::Inline { result, claim } => result@,
            CompletedResultFixture::Spilled { stand_in, artifact } => stand_in.text() + "\n\n"@
                + footer_text(artifact.file(), artifact.chars()),
        }
    }

    /// The worker's claim, where there is one.
    pub open spec fn stated(self) -> Option<WorkerClaim> {
        match self {
            CompletedResultFixture::Inline { result, claim } => claim,
            CompletedResultFixture::Spilled { stand_in, artifact } => match stand_in {
                SpilledStandIn::ClaimEcho { claim } => Some(claim),
                SpilledStandIn::RawPreview { preview, claim } => claim,
                SpilledStandIn::NoPreview => None,
            },
        }
    }

    /// The result as it is stored.
    pub fn raw_result(&self) -> (r: String)
        ensures
            r@ == self.stored(),
    {
        match self {
            CompletedResultFixture::Inline { result, .. } => result.as_str().to_owned(),
            CompletedResultFixture::Spilled { stand_in, artifact } => {
                let mut r = match stand_in {
                    SpilledStandIn::ClaimEcho { claim } => claim.summary().to_owned(),
                    SpilledStandIn::RawPreview { preview, .. } => preview.as_str().to_owned(),
                    SpilledStandIn::NoPreview => String::new(),
                };
                r.append("\n\n");
                r.append(&artifact.to_string());
                r
            },
        }
    }

    /// The worker's claim, where there is one.
    pub fn claim(&self) -> (r: Option<&WorkerClaim>)
        ensures
            match r {
                Some(claim) => self.stated() == Some(*claim),
                None => self.stated() is None,
            },
    {
        match self {
            CompletedResultFixture::Inline { claim, .. } => match claim {
                Some(claim) => Some(claim),
                None => None,
            },
            CompletedResultFixture::Spilled { stand_in, .. } => match stand_in {
                SpilledStandIn::ClaimEcho { claim } => Some(claim),
                SpilledStandIn::RawPreview { claim, .. } => match claim {
                    Some(claim) => Some(claim),
                    None => None,
                },
                SpilledStandIn::NoPreview => None,
            },
        }
    }
}

/// The failure of a task, as it is stored.
#[derive(Debug, PartialEq, Eq)]
pub enum FailedResultFixture {
    Hard { error: String, category: FailureCategory },
    /// The worker itself says that it could not do it.
    Soft { claim: WorkerClaim, artifact: Option<SpilledArtifact> },
}

/// How one tool call ended.
#[derive(Debug, PartialEq, Eq)]
pub enum ToolOutcome {
    Success { output_bytes: u64 },
    Error { message: String },
}

/// What is recorded of one tool call.
#[derive(Debug, PartialEq, Eq)]
pub struct ToolTraceEntry {
    pub tool: String,
    pub reasoning: String,
    pub duration_ms: u64,
    pub outcome: ToolOutcome,
    pub artifact_filename: Option<String>,
}

/// How a task ended. One that never ran has nothing to show.
#[derive(Debug, PartialEq, Eq)]
#[allow(inconsistent_fields)]
pub enum TaskOutcome {
    Complete { result: CompletedResultFixture, traces: Vec<ToolTraceEntry> },
    Failed { report: FailedResultFixture, traces: Vec<ToolTraceEntry> },
    Blocked,
}

/// Why a round did not come through.
#[derive(Debug, PartialEq, Eq)]
pub struct FailureSummary {
    pub reasoning: String,
    pub gaps: Vec<String>,
}

/// Whether every task was completed.
pub open spec fn all_complete(outcomes: Seq<TaskOutcome>) -> bool {
    forall|i: int| 0 <= i < outcomes.len() ==> (#[trigger] outcomes[i]) is Complete
}

/// One round: the decision that opened it and how its tasks ended.
#[derive(Debug)]
pub struct IterationFixture {
    decision: PlanDecision,
    outcomes: Vec<TaskOutcome>,
    failure_summary: Option<FailureSummary>,
}

fn are_all_complete(outcomes: &Vec<TaskOutcome>) -> (r: bool)
    ensures
        r == all_complete(outcomes@),
{
    for i in 0..outcomes.len()
        invariant
            forall|j: int| 0 <= j < i ==> (#[trigger] outcomes@[j]) is Complete,
    {
        match &outcomes[i] {
            TaskOutcome::Complete { .. } => (),
            _ => {
                assert(!(outcomes@[i as int] is Complete));
                return false;
            },
        }
    }
    true
}

impl IterationFixture {
    #[verifier::type_invariant]
    spec fn is_round(self) -> bool {
        &&& self.outcomes@.len() == decided_tasks(self.decision.written()).len()
        &&& self.failure_summary is Some ==> !all_complete(self.outcomes@)
    }

    /// The decision that opened the round.
    pub closed spec fn opened_by(self) -> PlanDecision {
        self.decision
    }

    /// How its tasks ended.
    pub closed spec fn ended(self) -> Seq<TaskOutcome> {
        self.outcomes@
    }

    /// Why it did not come through.
    pub closed spec fn failures(self) -> Option<FailureSummary> {
        self.failure_summary
    }

    /// A round of the given decision.
    pub fn new(
        decision: PlanDecision,
        outcomes: Vec<TaskOutcome>,
        failure_summary: Option<FailureSummary>,
    ) -> (r: Result<IterationFixture, FixtureError>)
        ensures
            ({
                let tasks = decided_tasks(decision.written()).len();
                match r {
                    Ok(round) => {
                        &&& outcomes@.len() == tasks
                        &&& failure_summary is Some ==> !all_complete(outcomes@)
                        &&& round.opened_by() == decision
                        &&& round.ended() == outcomes@
                        &&& round.failures() == failure_summary
                    },
                    Err(FixtureError::OutcomeCountMismatch { tasks: t, outcomes: o }) => {
                        t == tasks && o == outcomes@.len() && outcomes@.len() != tasks
                    },
                    Err(FixtureError::FailureSummaryWithoutFailure) => {
                        &&& outcomes@.len() == tasks
                        &&& failure_summary is Some
                        &&& all_complete(outcomes@)
                    },
                    Err(_) => false,
                }
            }),
    {
        let plan = decision.plan();
        assert(planned(plan.tasks@).len() == plan.tasks@.len());
        if outcomes.len() != plan.tasks.len() {
            return Err(
                FixtureError::OutcomeCountMismatch {
                    tasks: plan.tasks.len(),
                    outcomes: outcomes.len(),
                },
            );
        }
        if failure_summary.is_some() && are_all_complete(&outcomes) {
            return Err(FixtureError::FailureSummaryWithoutFailure);
        }
        Ok(IterationFixture { decision, outcomes, failure_summary })
    }

    /// The decision that opened the round.
    pub fn decision(&self) -> (r: &PlanDecision)
        ensures
            *r == self.opened_by(),
    {
        &self.decision
    }

    /// How its tasks ended, one for each task of the decision.
    pub fn outcomes(&self) -> (r: &Vec<TaskOutcome>)
        ensures
            r@ == self.ended(),
            r@.len() == decided_tasks(self.opened_by().written()).len(),
    {
        proof {
            use_type_invariant(self);
        }
        &self.outcomes
    }

    /// Why it did not come through.
    pub fn failure_summary(&self) -> (r: Option<&FailureSummary>)
        ensures
            match r {
                Some(summary) => self.failures() == Some(*summary),
                None => self.failures() is None,
            },
    {
        match &self.failure_summary {
            Some(summary) => Some(summary),
            None => None,
        }
    }
}

// ---------------------------------------------------------------------------
// A planning call
// ---------------------------------------------------------------------------

/// The rounds behind a planning call, the first one first; at least one.
#[derive(Debug)]
pub struct ContinuationThread {
    iterations: Vec<IterationFixture>,
}

impl ContinuationThread {
    #[verifier::type_invariant]
    spec fn is_thread(self) -> bool {
        self.iterations@.len() > 0
    }

    /// The rounds.
    pub closed spec fn rounds(self) -> Seq<IterationFixture> {
        self.iterations@
    }

    /// A thread of the given rounds.
    pub fn new(iterations: Vec<IterationFixture>) -> (r: Result<ContinuationThread, FixtureError>)
        ensures
            match r {
                Ok(thread) => iterations@.len() > 0 && thread.rounds() == iterations@,
                Err(e) => iterations@.len() == 0 && e is EmptyContinuationThread,
            },
    {
        if iterations.len() == 0 {
            Err(FixtureError::EmptyContinuationThread)
        } else {
            Ok(ContinuationThread { iterations })
        }
    }

    /// The rounds, the first one first.
    pub fn iterations(&self) -> (r: &Vec<IterationFixture>)
        ensures
            r@ == self.rounds(),
            r@.len() > 0,
    {
        proof {
            use_type_invariant(self);
        }
        &self.iterations
    }
}

/// Which planning call a request is.
#[derive(Debug)]
pub enum CoordinatorCall {
    /// The first.
    Initial,
    /// A later one, after the rounds before it.
    Continuation(ContinuationThread),
}

/// A planning call with everything it is made from.
#[derive(Debug)]
pub struct CoordinatorScenario {
    preamble: PreambleFixture,
    query: PinnedGoal,
    roster: WorkerRosterFixture,
    budget: PlanningBudget,
    call: CoordinatorCall,
}

/// Whether a worker is configured.
pub open spec fn is_configured(workers: Seq<String>, name: Seq<char>) -> bool {
    exists|i: int| 0 <= i < workers.len() && (#[trigger] workers[i])@ == name
}

/// Whether a task was completed by a worker that is not configured.
pub open spec fn is_stray(task: Planned, outcome: TaskOutcome, workers: Seq<String>) -> bool {
    outcome is Complete && task.worker is Some && !is_configured(workers, task.worker->0)
}

/// The place of the first stray task of a round, from place `i` on.
pub open spec fn first_stray(
    tasks: Seq<Planned>,
    outcomes: Seq<TaskOutcome>,
    workers: Seq<String>,
    i: int,
) -> Option<int>
    decreases tasks.len() - i,
{
    if i < 0 || i >= tasks.len() {
        None
    } else if is_stray(tasks[i], outcomes[i], workers) {
        Some(i)
    } else {
        first_stray(tasks, outcomes, workers, i + 1)
    }
}

/// The task, in the first round from round `i` on that has one, that was
/// completed by a worker that is not configured.
pub open spec fn stray_task(
    rounds: Seq<IterationFixture>,
    workers: Seq<String>,
    i: int,
) -> Option<Planned>
    decreases rounds.len() - i,
{
    if i < 0 || i >= rounds.len() {
        None
    } else {
        let tasks = decided_tasks(rounds[i].opened_by().written());
        match first_stray(tasks, rounds[i].ended(), workers, 0) {
            Some(k) => Some(tasks[k]),
            None => stray_task(rounds, workers, i + 1),
        }
    }
}

/// The rounds behind a call.
pub open spec fn rounds_behind(call: CoordinatorCall) -> Seq<IterationFixture> {
    match call {
        CoordinatorCall::Initial => Seq::empty(),
        CoordinatorCall::Continuation(thread) => thread.rounds(),
    }
}

fn has_worker(workers: &Vec<String>, name: &str) -> (r: bool)
    ensures
        r == is_configured(workers@, name@),
{
    for i in 0..workers.len()
        invariant
            forall|j: int| 0 <= j < i ==> (#[trigger] workers@[j])@ != name@,
    {
        if same(&workers[i], name) {
            return true;
        }
    }
    false
}

fn find_stray_in(round: &IterationFixture, workers: &Vec<String>) -> (r: Option<(usize, String)>)
    ensures
        ({
            let tasks = decided_tasks(round.opened_by().written());
            match r {
                Some((id, worker)) => first_stray(tasks, round.ended(), workers@, 0) matches Some(k)
                    && 0 <= k < tasks.len() && tasks[k].id == id && tasks[k].worker == Some(
                    worker@,
                ),
                None => first_stray(tasks, round.ended(), workers@, 0) is None,
            }
        }),
{
    let plan = round.decision().plan();
    let outcomes = round.outcomes();
    let ghost tasks = decided_tasks(round.opened_by().written());
    proof {
        assert(planned(plan.tasks@).len() == plan.tasks@.len());
    }
    for i in 0..plan.tasks.len()
        invariant
            tasks == decided_tasks(round.opened_by().written()),
            planned(plan.tasks@) == tasks,
            tasks.len() == plan.tasks@.len(),
            outcomes@ == round.ended(),
            outcomes@.len() == tasks.len(),
            first_stray(tasks, round.ended(), workers@, 0) == first_stray(
                tasks,
                round.ended(),
                workers@,
                i as int,
            ),
    {
        assert(planned(plan.tasks@)[i as int] == tasks[i as int]);
        let complete = match &outcomes[i] {
            TaskOutcome::Complete { .. } => true,
            _ => false,
        };
        match &plan.tasks[i].worker {
            Some(worker) => if complete && !has_worker(workers, worker) {
                return Some((plan.tasks[i].id, worker.clone()));
            },
            None => (),
        }
    }
    None
}

fn find_stray(rounds: &Vec<IterationFixture>, workers: &Vec<String>) -> (r: Option<(usize, String)>)
    ensures
        match r {
            Some((id, worker)) => stray_task(rounds@, workers@, 0) matches Some(task) && task.id
                == id && task.worker == Some(worker@),
            None => stray_task(rounds@, workers@, 0) is None,
        },
{
    for i in 0..rounds.len()
        invariant
            stray_task(rounds@, workers@, 0) == stray_task(rounds@, workers@, i as int),
    {
        match find_stray_in(&rounds[i], workers) {
            Some(stray) => {
                return Some(stray);
            },
            None => (),
        }
    }
    None
}

impl CoordinatorScenario {
    /// What the preamble is made from.
    pub closed spec fn told(self) -> PreambleFixture {
        self.preamble
    }

    /// The user's query.
    pub closed spec fn asked(self) -> PinnedGoal {
        self.query
    }

    /// The workers.
    pub closed spec fn staff(self) -> WorkerRosterFixture {
        self.roster
    }

    /// The planning calls of the run.
    pub closed spec fn planning_calls(self) -> usize {
        self.budget.count()
    }

    /// Which call it is.
    pub closed spec fn which(self) -> CoordinatorCall {
        self.call
    }

    /// A planning call that a run can come to. The number of planning calls is
    /// that of the workers' configuration.
    pub fn new(
        preamble: PreambleFixture,
        query: PinnedGoal,
        roster: WorkerRosterFixture,
        call: CoordinatorCall,
    ) -> (r: Result<CoordinatorScenario, FixtureError>)
        ensures
            ({
                let cycles = roster.settings().max_planning_cycles;
                let recon = preamble.tools.recon is Included
                    && !(roster.settings().tools_in_planning is Hidden);
                let rounds = rounds_behind(call);
                let stray = stray_task(rounds, roster.settings().workers@, 0);
                match r {
                    Ok(s) => {
                        &&& cycles > 0 && !recon && rounds.len() < cycles && stray is None
                        &&& s.told() == preamble
                        &&& s.asked() == query
                        &&& s.staff() == roster
                        &&& s.planning_calls() == cycles
                        &&& s.which() == call
                    },
                    Err(FixtureError::ZeroPlanningBudget) => cycles == 0,
                    Err(FixtureError::ReconRequiresUninlinedTools) => cycles > 0 && recon,
                    Err(FixtureError::IterationsExhaustBudget { iterations, budget }) => {
                        &&& cycles > 0 && !recon && rounds.len() >= cycles
                        &&& iterations == rounds.len()
                        &&& budget == cycles
                    },
                    Err(FixtureError::CompletedTaskUnknownWorker { task_id, worker }) => {
                        &&& cycles > 0 && !recon && rounds.len() < cycles
                        &&& stray matches Some(task) && task.id == task_id && task.worker == Some(
                            worker@,
                        )
                    },
                    Err(_) => false,
                }
            }),
    {
        let cycles: usize = roster.config().max_planning_cycles;
        let budget = match PlanningBudget::new(cycles) {
            Ok(budget) => budget,
            Err(e) => {
                return Err(e);
            },
        };
        let inlined = match roster.config().tools_in_planning {
            ToolVisibility::Hidden => false,
            _ => true,
        };
        if preamble.tools.recon == ReconTools::Included && inlined {
            return Err(FixtureError::ReconRequiresUninlinedTools);
        }
        match &call {
            CoordinatorCall::Initial => (),
            CoordinatorCall::Continuation(thread) => {
                let rounds = thread.iterations();
                if rounds.len() >= cycles {
                    return Err(
                        FixtureError::IterationsExhaustBudget {
                            iterations: rounds.len(),
                            budget: cycles,
                        },
                    );
                }
                match find_stray(rounds, &roster.config().workers) {
                    Some((task_id, worker)) => {
                        return Err(FixtureError::CompletedTaskUnknownWorker { task_id, worker });
                    },
                    None => (),
                }
            },
        }
        Ok(CoordinatorScenario { preamble, query, roster, budget, call })
    }

    pub fn preamble(&self) -> (r: &PreambleFixture)
        ensures
            *r == self.told(),
    {
        &self.preamble
    }

    pub fn query(&self) -> (r: &PinnedGoal)
        ensures
            *r == self.asked(),
    {
        &self.query
    }

    pub fn roster(&self) -> (r: &WorkerRosterFixture)
        ensures
            *r == self.staff(),
    {
        &self.roster
    }

    pub fn budget(&self) -> (r: PlanningBudget)
        ensures
            r.count() == self.planning_calls(),
    {
        self.budget
    }

    pub fn call(&self) -> (r: &CoordinatorCall)
        ensures
            *r == self.which(),
    {
        &self.call
    }
}

} // verus!
