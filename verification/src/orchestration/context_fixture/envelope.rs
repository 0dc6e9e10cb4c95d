//! What goes out with one request to the model.
use super::scenario::{
    decided_tasks, CompletedResultFixture, FailedResultFixture, HistoryTools, IterationFixture,
    PreambleFixture, ReconTools, SpilledStandIn, TaskOutcome, ToolTraceEntry,
};
use crate::json::{copy, lemma_array, lemma_object, Doc, Json, Member};
use crate::mcp::conversion::ToolDefinition;
use crate::orchestration::config::{
    build_coordinator_preamble, build_vector_store_context, coordinator_preamble,
    vector_store_context,
};
use crate::orchestration::context::evidence::{
    footer_text, law_footer_round_trip, trailing_footer, FooterModel, SpilledArtifact, FOOTER_PREFIX,
};
use crate::orchestration::context::WorkerClaim;
use crate::orchestration::plan::{all_pending, planned, Plan, Task, TaskState};
use crate::orchestration::types::{
    FailureCategory, PlanningResponse, StructuredTaskOutput, SubmittedCheck,
};
use crate::text::is_blank;
use crate::text::search::contains_text;
use vstd::prelude::*;

verus! {

/// One message of a conversation.
#[derive(Debug, PartialEq, Eq)]
pub enum Message {
    User(String),
    Assistant(String),
}

impl Message {
    /// The text of the message.
    pub open spec fn body(self) -> Seq<char> {
        match self {
            Message::User(text) => text@,
            Message::Assistant(text) => text@,
        }
    }

    /// The text of the message.
    pub fn text(&self) -> (r: &str)
        ensures
            r@ == self.body(),
    {
        match self {
            Message::User(text) => text,
            Message::Assistant(text) => text,
        }
    }
}

/// What goes out with one request: the preamble, the conversation, and the
/// tools in the order in which they are registered.
#[derive(Debug, PartialEq, Eq)]
pub struct RequestEnvelope {
    pub system: String,
    pub messages: Vec<Message>,
    pub tools: Vec<ToolDefinition>,
}

/// A tool definition as a JSON object.
pub open spec fn tool_doc(tool: ToolDefinition) -> Doc {
    Doc::Object(
        seq![
            ("name"@, Doc::Text(tool.name@)),
            ("description"@, Doc::Text(tool.description@)),
            ("parameters"@, tool.parameters@),
        ],
    )
}

/// The tool definitions as a JSON array.
pub open spec fn tools_doc(tools: Seq<ToolDefinition>) -> Doc {
    Doc::Array(Seq::new(tools.len(), |i: int| tool_doc(tools[i])))
}

fn tool_json(tool: &ToolDefinition) -> (r: Json)
    ensures
        r@ == tool_doc(*tool),
{
    let mut members: Vec<Member> = Vec::new();
    members.push(Member { key: "name".to_owned(), value: Json::Text(tool.name.clone()) });
    members.push(
        Member { key: "description".to_owned(), value: Json::Text(tool.description.clone()) },
    );
    members.push(Member { key: "parameters".to_owned(), value: copy(&tool.parameters) });
    proof {
        lemma_object(members, tool_doc(*tool)->Object_0);
    }
    Json::Object(members)
}

impl RequestEnvelope {
    /// The tool definitions as a JSON array.
    pub fn tools_json(&self) -> (r: Json)
        ensures
            r@ == tools_doc(self.tools@),
    {
        let mut items: Vec<Json> = Vec::new();
        for i in 0..self.tools.len()
            invariant
                items.len() == i,
                forall|j: int| 0 <= j < i ==> (#[trigger] items@[j])@ == tool_doc(self.tools@[j]),
        {
            items.push(tool_json(&self.tools[i]));
        }
        proof {
            lemma_array(items, tools_doc(self.tools@)->Array_0);
        }
        Json::Array(items)
    }
}

// ---------------------------------------------------------------------------
// The coordinator's preamble
// ---------------------------------------------------------------------------

/// The coordinator's preamble with all that is appended to it: the catalog of
/// skills, the knowledge bases, and the session's earlier runs, told as
/// `session`, where there are any.
pub open spec fn composed_preamble(fixture: PreambleFixture, session: Seq<char>) -> Seq<char> {
    let base = coordinator_preamble(
        fixture.playbook@,
        fixture.tools.recon is Included,
        fixture.tools.history is Included,
        true,
    );
    let skills = match fixture.skill_catalog {
        Some(catalog) => catalog@,
        None => Seq::empty(),
    };
    let history = match fixture.session_history {
        Some(_) => "\n"@ + session,
        None => Seq::empty(),
    };
    base + skills + vector_store_context(fixture.vector_stores@) + history
}

/// The coordinator's preamble with all that is appended to it.
pub fn compose_coordinator_preamble(fixture: &PreambleFixture, session: &str) -> (r: String)
    ensures
        r@ == composed_preamble(*fixture, session@),
{
    let recon = match fixture.tools.recon {
        ReconTools::Included => true,
        ReconTools::Excluded => false,
    };
    let history = match fixture.tools.history {
        HistoryTools::Included => true,
        HistoryTools::Excluded => false,
    };
    let mut r = build_coordinator_preamble(&fixture.playbook, recon, history);
    let ghost base = r@;
    match &fixture.skill_catalog {
        Some(catalog) => r.append(catalog),
        None => (),
    }
    r.append(&build_vector_store_context(&fixture.vector_stores));
    match &fixture.session_history {
        Some(_) => {
            r.append("\n");
            r.append(session);
        },
        None => (),
    }
    assert(r@ =~= composed_preamble(*fixture, session@));
    r
}

// ---------------------------------------------------------------------------
// Rounds as they were executed
// ---------------------------------------------------------------------------

/// The error that a failed task is stored with.
pub open spec fn stored_error(report: FailedResultFixture) -> Seq<char> {
    match report {
        FailedResultFixture::Hard { error, category } => error@,
        FailedResultFixture::Soft { claim, artifact } => match artifact {
            Some(artifact) => claim.summary_text() + "\n\n"@ + footer_text(
                artifact.file(),
                artifact.chars(),
            ),
            None => claim.summary_text(),
        },
    }
}

/// The category that a failed task is stored with.
pub open spec fn stored_category(report: FailedResultFixture) -> FailureCategory {
    match report {
        FailedResultFixture::Hard { error, category } => category,
        FailedResultFixture::Soft { claim, artifact } => FailureCategory::SoftFailure,
    }
}

/// Whether a worker's output says what its claim says.
pub open spec fn states(output: Option<StructuredTaskOutput>, claim: Option<WorkerClaim>) -> bool {
    match claim {
        Some(c) => output matches Some(o) && o.summary@ == c.summary_text() && o.confidence
            == c.stated_confidence(),
        None => output is None,
    }
}

/// Whether a task stands as an outcome left it.
pub open spec fn ended_as(task: Task, outcome: TaskOutcome) -> bool {
    match outcome {
        TaskOutcome::Complete { result, traces } => {
            &&& task.state matches TaskState::Complete { result: text } && text@ == result.stored()
            &&& states(task.structured_output, result.stated())
        },
        TaskOutcome::Failed { report, traces } => {
            &&& task.state matches TaskState::Failed { error, category } && error@ == stored_error(
                report,
            ) && category == stored_category(report)
            &&& states(
                task.structured_output,
                match report {
                    FailedResultFixture::Hard { .. } => None,
                    FailedResultFixture::Soft { claim, artifact } => Some(claim),
                },
            )
        },
        TaskOutcome::Blocked => task.state is Pending && task.structured_output is None,
    }
}

/// What is stored of a spilled result and of a soft failure ends in a pointer
/// that reads back as it was written, whatever stands before it.
pub proof fn law_stored_pointer_reads_back(
    stand_in: SpilledStandIn,
    claim: WorkerClaim,
    artifact: SpilledArtifact,
)
    requires
        !is_blank(artifact.file()),
        !contains_text(artifact.file(), FOOTER_PREFIX@),
    ensures
        trailing_footer((CompletedResultFixture::Spilled { stand_in, artifact }).stored()) == Some(
            FooterModel {
                start: (stand_in.text() + "\n\n"@).len() as int,
                filename: artifact.file(),
                full_chars: artifact.chars(),
            },
        ),
        trailing_footer(
            stored_error(FailedResultFixture::Soft { claim, artifact: Some(artifact) }),
        ) == Some(
            FooterModel {
                start: (claim.summary_text() + "\n\n"@).len() as int,
                filename: artifact.file(),
                full_chars: artifact.chars(),
            },
        ),
{
    let footer = footer_text(artifact.file(), artifact.chars());
    let shown = stand_in.text() + "\n\n"@;
    let stated = claim.summary_text() + "\n\n"@;
    law_footer_round_trip(shown, artifact.file(), artifact.chars(), Seq::empty());
    law_footer_round_trip(stated, artifact.file(), artifact.chars(), Seq::empty());
    assert(shown + footer + Seq::<char>::empty() =~= shown + footer);
    assert(stated + footer + Seq::<char>::empty() =~= stated + footer);
}

fn output_of(claim: Option<&WorkerClaim>) -> (r: Option<StructuredTaskOutput>)
    ensures
        states(
            r,
            match claim {
                Some(c) => Some(*c),
                None => None,
            },
        ),
{
    match claim {
        Some(c) => Some(
            StructuredTaskOutput {
                summary: c.summary().to_owned(),
                confidence: c.confidence(),
                named_check: SubmittedCheck::Absent,
            },
        ),
        None => None,
    }
}

fn write_error(report: &FailedResultFixture) -> (r: String)
    ensures
        r@ == stored_error(*report),
{
    match report {
        FailedResultFixture::Hard { error, .. } => error.clone(),
        FailedResultFixture::Soft { claim, artifact } => {
            let mut r = claim.summary().to_owned();
            match artifact {
                Some(artifact) => {
                    r.append("\n\n");
                    r.append(&artifact.to_string());
                },
                None => (),
            }
            r
        },
    }
}

/// A task as an outcome leaves it.
fn end_task(task: Task, outcome: &TaskOutcome) -> (r: Task)
    requires
        task.state is Pending,
    ensures
        ended_as(r, *outcome),
        r.id == task.id,
        r.description == task.description,
        r.rationale == task.rationale,
        r.worker == task.worker,
        r.dependencies == task.dependencies,
{
    let mut task = task;
    match outcome {
        TaskOutcome::Complete { result, .. } => {
            task.complete(result.raw_result());
            task.structured_output = output_of(result.claim());
        },
        TaskOutcome::Failed { report, .. } => match report {
            FailedResultFixture::Hard { category, .. } => {
                task.fail(write_error(report), *category);
                task.structured_output = None;
            },
            FailedResultFixture::Soft { claim, .. } => {
                task.fail(write_error(report), FailureCategory::SoftFailure);
                task.structured_output = output_of(Some(claim));
            },
        },
        TaskOutcome::Blocked => {
            task.structured_output = None;
        },
    }
    task
}

/// The plan of a round, with its tasks as they ended.
pub fn executed_plan(iteration: &IterationFixture) -> (r: Plan)
    ensures
        iteration.opened_by().written() matches PlanningResponse::StepsPlan { goal, .. } && r.goal@
            == goal@,
        planned(r.tasks@) == decided_tasks(iteration.opened_by().written()),
        r.tasks@.len() == iteration.ended().len(),
        forall|i: int|
            0 <= i < r.tasks@.len() ==> ended_as(#[trigger] r.tasks@[i], iteration.ended()[i]),
{
    let plan = iteration.decision().plan();
    let outcomes = iteration.outcomes();
    let ghost whole = plan.tasks@;
    let ghost wanted = decided_tasks(iteration.opened_by().written());
    proof {
        assert(planned(whole).len() == whole.len());
    }
    let goal = plan.goal;
    let mut rest = plan.tasks;
    let mut tasks: Vec<Task> = Vec::new();
    while rest.len() > 0
        invariant
            planned(whole) == wanted,
            all_pending(whole),
            whole.len() == wanted.len(),
            outcomes@ == iteration.ended(),
            outcomes@.len() == whole.len(),
            tasks@.len() <= whole.len(),
            rest@ == whole.skip(tasks@.len() as int),
            planned(tasks@) == wanted.take(tasks@.len() as int),
            forall|i: int|
                0 <= i < tasks@.len() ==> ended_as(#[trigger] tasks@[i], iteration.ended()[i]),
        decreases rest.len(),
    {
        let ghost n = tasks@.len() as int;
        let ghost before = tasks@;
        let task = rest.remove(0);
        assert(task == whole[n]);
        assert(rest@ =~= whole.skip(n + 1));
        let i: usize = tasks.len();
        let ended = end_task(task, &outcomes[i]);
        tasks.push(ended);
        proof {
            assert(planned(whole)[n] == wanted[n]);
            assert(planned(tasks@) =~= wanted.take(n + 1)) by {
                assert forall|j: int| 0 <= j < n + 1 implies planned(tasks@)[j] == wanted[j] by {
                    if j < n {
                        assert(planned(before)[j] == wanted.take(n)[j]);
                    }
                }
            }
        }
    }
    proof {
        assert(wanted.take(wanted.len() as int) =~= wanted);
    }
    Plan { goal, tasks }
}

/// The tool calls that an outcome carries; a task that never ran has none.
pub open spec fn traces_of(outcome: TaskOutcome) -> Seq<ToolTraceEntry> {
    match outcome {
        TaskOutcome::Complete { result, traces } => traces@,
        TaskOutcome::Failed { report, traces } => traces@,
        TaskOutcome::Blocked => Seq::empty(),
    }
}

/// The tool calls of the task with an id in the first `n` rounds, in order.
pub open spec fn merged(rounds: Seq<IterationFixture>, id: usize, n: int) -> Seq<ToolTraceEntry>
    decreases n,
{
    if n <= 0 || n > rounds.len() {
        Seq::empty()
    } else {
        let outcomes = rounds[n - 1].ended();
        merged(rounds, id, n - 1) + if id < outcomes.len() {
            traces_of(outcomes[id as int])
        } else {
            Seq::empty()
        }
    }
}

/// The tool calls of the task with an id over all rounds, in order.
fn traces_of_task<'a>(iterations: &'a Vec<IterationFixture>, id: usize) -> (r: Vec<
    &'a ToolTraceEntry,
>)
    ensures
        r.len() == merged(iterations@, id, iterations@.len() as int).len(),
        forall|i: int|
            0 <= i < r.len() ==> *#[trigger] r@[i] == merged(
                iterations@,
                id,
                iterations@.len() as int,
            )[i],
{
    let mut r: Vec<&ToolTraceEntry> = Vec::new();
    for n in 0..iterations.len()
        invariant
            r.len() == merged(iterations@, id, n as int).len(),
            forall|i: int|
                0 <= i < r.len() ==> *#[trigger] r@[i] == merged(iterations@, id, n as int)[i],
    {
        let outcomes = iterations[n].outcomes();
        let ghost before = merged(iterations@, id, n as int);
        if id < outcomes.len() {
            let traces = match &outcomes[id] {
                TaskOutcome::Complete { traces, .. } => Some(traces),
                TaskOutcome::Failed { traces, .. } => Some(traces),
                TaskOutcome::Blocked => None,
            };
            match traces {
                Some(traces) => {
                    for t in 0..traces.len()
                        invariant
                            r.len() == before.len() + t,
                            forall|i: int|
                                0 <= i < r.len() ==> *#[trigger] r@[i] == (before + traces@)[i],
                    {
                        r.push(&traces[t]);
                    }
                },
                None => (),
            }
        }
    }
    r
}

/// The tool calls of one task.
#[derive(Debug)]
pub struct TaskTraces<'a> {
    pub task_id: usize,
    pub entries: Vec<&'a ToolTraceEntry>,
}

/// The tasks among the first `n` of a plan that called tools in any round.
pub open spec fn tasks_with_traces(
    rounds: Seq<IterationFixture>,
    tasks: Seq<Task>,
    n: int,
) -> Seq<usize>
    decreases n,
{
    if n <= 0 || n > tasks.len() {
        Seq::empty()
    } else if merged(rounds, tasks[n - 1].id, rounds.len() as int).len() > 0 {
        tasks_with_traces(rounds, tasks, n - 1).push(tasks[n - 1].id)
    } else {
        tasks_with_traces(rounds, tasks, n - 1)
    }
}

/// Whether a record holds all that a task called.
pub open spec fn holds_traces(record: TaskTraces, rounds: Seq<IterationFixture>) -> bool {
    let all = merged(rounds, record.task_id, rounds.len() as int);
    &&& record.entries@.len() == all.len()
    &&& forall|i: int| 0 <= i < all.len() ==> *#[trigger] record.entries@[i] == all[i]
}

/// Whether records hold what the tasks with the given ids called.
pub open spec fn all_traces(
    records: Seq<TaskTraces>,
    ids: Seq<usize>,
    rounds: Seq<IterationFixture>,
) -> bool {
    &&& records.len() == ids.len()
    &&& forall|i: int| 0 <= i < ids.len() ==> (#[trigger] records[i]).task_id == ids[i]
    &&& forall|i: int| 0 <= i < ids.len() ==> holds_traces(#[trigger] records[i], rounds)
}

/// The tool calls of the tasks of a plan over all rounds, in the order of the
/// plan and the rounds. A task that called nothing has no record.
pub fn merged_traces<'a>(
    iterations: &'a Vec<IterationFixture>,
    current_plan: &Plan,
) -> (r: Vec<TaskTraces<'a>>)
    ensures
        all_traces(
            r@,
            tasks_with_traces(
                iterations@,
                current_plan.tasks@,
                current_plan.tasks@.len() as int,
            ),
            iterations@,
        ),
{
    let mut r: Vec<TaskTraces> = Vec::new();
    for t in 0..current_plan.tasks.len()
        invariant
            all_traces(
                r@,
                tasks_with_traces(iterations@, current_plan.tasks@, t as int),
                iterations@,
            ),
    {
        let ghost before = r@;
        let task_id: usize = current_plan.tasks[t].id;
        let entries = traces_of_task(iterations, task_id);
        let ghost ids = tasks_with_traces(iterations@, current_plan.tasks@, t as int);
        if entries.len() > 0 {
            r.push(TaskTraces { task_id, entries });
            proof {
                assert(tasks_with_traces(iterations@, current_plan.tasks@, t + 1) == ids.push(
                    task_id,
                ));
                assert forall|i: int| 0 <= i < ids.push(task_id).len() implies holds_traces(
                    #[trigger] r@[i],
                    iterations@,
                ) by {
                    if i < before.len() {
                        assert(r@[i] == before[i]);
                    }
                }
            }
        }
    }
    r
}

} // verus!
