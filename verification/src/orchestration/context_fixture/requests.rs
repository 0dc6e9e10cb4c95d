//! Whole requests: the preamble, the conversation and the tools.
use super::envelope::{compose_coordinator_preamble, composed_preamble, Message, RequestEnvelope};
use super::scenario::{
    rounds_behind, CoordinatorScenario, HistoryTools, PreambleFixture, ReconTools,
};
use super::worker::{
    compose_worker_preamble, worker_preamble, WorkerFrameFixture, WorkerPreambleFixture,
    WorkerScenario,
};
use crate::mcp::conversion::ToolDefinition;
use crate::orchestration::templates::{render_worker_task_prompt, task_filled, WorkerTaskVars};
use vstd::prelude::*;

verus! {

// ---------------------------------------------------------------------------
// The tools, in the order in which they are registered
// ---------------------------------------------------------------------------

/// Names as they read.
pub open spec fn str_views(names: Seq<&'static str>) -> Seq<Seq<char>> {
    Seq::new(names.len(), |i: int| names[i]@)
}

/// The tools of a coordinator, in the order in which they are registered:
/// reconnaissance, routing, artifacts, history, skills.
pub open spec fn coordinator_order(fixture: PreambleFixture) -> Seq<Seq<char>> {
    let recon = if fixture.tools.recon is Included {
        seq!["list_tools"@, "inspect_tool_params"@]
    } else {
        Seq::empty()
    };
    let history = if fixture.tools.history is Included {
        seq!["list_prior_runs"@]
    } else {
        Seq::empty()
    };
    let skills = if fixture.skill_catalog is Some {
        seq!["load_skill"@, "read_skill_file"@]
    } else {
        Seq::empty()
    };
    recon + seq!["respond_directly"@, "create_plan"@, "request_clarification"@] + seq![
        "read_artifact"@,
    ] + history + skills
}

/// The names of a coordinator's tools, in the order in which they are
/// registered.
pub fn coordinator_tool_order(fixture: &PreambleFixture) -> (r: Vec<&'static str>)
    ensures
        str_views(r@) == coordinator_order(*fixture),
{
    let mut r: Vec<&'static str> = Vec::new();
    match fixture.tools.recon {
        ReconTools::Included => {
            r.push("list_tools");
            r.push("inspect_tool_params");
        },
        ReconTools::Excluded => (),
    }
    r.push("respond_directly");
    r.push("create_plan");
    r.push("request_clarification");
    r.push("read_artifact");
    match fixture.tools.history {
        HistoryTools::Included => {
            r.push("list_prior_runs");
        },
        HistoryTools::Excluded => (),
    }
    if fixture.skill_catalog.is_some() {
        r.push("load_skill");
        r.push("read_skill_file");
    }
    assert(str_views(r@) =~= coordinator_order(*fixture));
    r
}

/// Whether a worker has skills.
pub open spec fn worker_has_skills(fixture: WorkerPreambleFixture) -> bool {
    match fixture {
        WorkerPreambleFixture::Role { role_preamble, vector_stores, appends } => {
            appends.skill_catalog is Some
        },
        WorkerPreambleFixture::Generic { custom_prompt, appends } => appends.skill_catalog is Some,
    }
}

/// The tools of a worker, in the order in which they are registered.
pub open spec fn worker_order(fixture: WorkerPreambleFixture) -> Seq<Seq<char>> {
    seq!["read_artifact"@, "submit_result"@] + if worker_has_skills(fixture) {
        seq!["load_skill"@, "read_skill_file"@]
    } else {
        Seq::empty()
    }
}

/// The names of a worker's own tools, in the order in which they are
/// registered.
pub fn worker_tool_order(fixture: &WorkerPreambleFixture) -> (r: Vec<&'static str>)
    ensures
        str_views(r@) == worker_order(*fixture),
{
    let appends = match fixture {
        WorkerPreambleFixture::Role { appends, .. } => appends,
        WorkerPreambleFixture::Generic { appends, .. } => appends,
    };
    let mut r: Vec<&'static str> = Vec::new();
    r.push("read_artifact");
    r.push("submit_result");
    if appends.skill_catalog.is_some() {
        r.push("load_skill");
        r.push("read_skill_file");
    }
    assert(str_views(r@) =~= worker_order(*fixture));
    r
}

// ---------------------------------------------------------------------------
// The coordinator's conversation
// ---------------------------------------------------------------------------

/// What a round adds to the conversation: the decision that opened it, and
/// the prompt that follows it.
#[derive(Debug)]
pub struct RoundTexts {
    pub decision: String,
    pub follow_up: String,
}

/// One message, as it reads.
pub ghost enum Spoken {
    User(Seq<char>),
    Assistant(Seq<char>),
}

/// A message as it reads.
pub open spec fn spoken(message: Message) -> Spoken {
    match message {
        Message::User(text) => Spoken::User(text@),
        Message::Assistant(text) => Spoken::Assistant(text@),
    }
}

/// Messages as they read.
pub open spec fn all_spoken(messages: Seq<Message>) -> Seq<Spoken> {
    Seq::new(messages.len(), |i: int| spoken(messages[i]))
}

/// The conversation after the first `n` rounds: the opening, then of each
/// round the decision and the prompt that follows it.
pub open spec fn conversation(opening: Seq<char>, rounds: Seq<RoundTexts>, n: int) -> Seq<Spoken>
    decreases n,
{
    if n <= 0 || n > rounds.len() {
        seq![Spoken::User(opening)]
    } else {
        conversation(opening, rounds, n - 1).push(
            Spoken::Assistant(rounds[n - 1].decision@),
        ).push(Spoken::User(rounds[n - 1].follow_up@))
    }
}

/// The conversation after all rounds.
pub fn grow_conversation(opening: String, rounds: Vec<RoundTexts>) -> (r: Vec<Message>)
    ensures
        all_spoken(r@) == conversation(opening@, rounds@, rounds@.len() as int),
{
    let ghost all = rounds@;
    let ghost first = opening@;
    let mut rest = rounds;
    let mut r: Vec<Message> = Vec::new();
    r.push(Message::User(opening));
    let ghost mut done: int = 0;
    assert(all_spoken(r@) =~= conversation(first, all, 0));
    while rest.len() > 0
        invariant
            0 <= done <= all.len(),
            rest@ == all.skip(done),
            all_spoken(r@) == conversation(first, all, done),
        decreases rest.len(),
    {
        let ghost before = r@;
        let round = rest.remove(0);
        assert(round == all[done]);
        r.push(Message::Assistant(round.decision));
        r.push(Message::User(round.follow_up));
        proof {
            done = done + 1;
            assert(rest@ =~= all.skip(done));
            assert(all_spoken(r@) =~= all_spoken(before).push(
                Spoken::Assistant(all[done - 1].decision@),
            ).push(Spoken::User(all[done - 1].follow_up@)));
        }
    }
    r
}

/// Later rounds leave what was said before as it is: the conversation after
/// `n` rounds begins every later one.
pub proof fn law_conversation_only_grows(
    opening: Seq<char>,
    rounds: Seq<RoundTexts>,
    n: int,
    m: int,
)
    requires
        0 <= n <= m <= rounds.len(),
    ensures
        conversation(opening, rounds, n).is_prefix_of(conversation(opening, rounds, m)),
    decreases m - n,
{
    if n < m {
        law_conversation_only_grows(opening, rounds, n, m - 1);
        let shorter = conversation(opening, rounds, m - 1);
        let longer = conversation(opening, rounds, m);
        assert(longer.take(shorter.len() as int) =~= shorter);
        assert(longer.take(conversation(opening, rounds, n).len() as int) =~= shorter.take(
            conversation(opening, rounds, n).len() as int,
        ));
    }
}

/// A planning request: the preamble, the conversation so far, and the tools.
/// `session` tells of earlier runs, `opening` is the planning prompt, and
/// `rounds` holds one entry for each round behind the call.
pub fn coordinator_envelope(
    scenario: &CoordinatorScenario,
    session: &str,
    opening: String,
    rounds: Vec<RoundTexts>,
    tools: Vec<ToolDefinition>,
) -> (r: RequestEnvelope)
    requires
        rounds@.len() == rounds_behind(scenario.which()).len(),
    ensures
        r.system@ == composed_preamble(scenario.told(), session@),
        all_spoken(r.messages@) == conversation(opening@, rounds@, rounds@.len() as int),
        r.tools == tools,
{
    let system = compose_coordinator_preamble(scenario.preamble(), session);
    let messages = grow_conversation(opening, rounds);
    RequestEnvelope { system, messages, tools }
}

// ---------------------------------------------------------------------------
// The worker's request
// ---------------------------------------------------------------------------

/// The prior work as it stands before the task; a worker without prior work
/// has none.
pub open spec fn context_slot(frame: WorkerFrameFixture, context: Seq<char>) -> Seq<char> {
    match frame {
        WorkerFrameFixture::EmptyFirstTurn { task } => Seq::empty(),
        WorkerFrameFixture::EmptyReplanBoundary { task } => Seq::empty(),
        WorkerFrameFixture::Populated(graph) => context + "\n\n"@,
    }
}

/// The one prompt of a worker's request.
pub open spec fn worker_prompt(frame: WorkerFrameFixture, context: Seq<char>) -> Seq<char> {
    task_filled(context_slot(frame, context), frame.asked())
}

/// A worker's request: its preamble, one prompt with the prior work and the
/// task, and its tools. `context` is the rendered prior work of a populated
/// frame.
pub fn worker_envelope(
    scenario: &WorkerScenario,
    context: &str,
    tools: Vec<ToolDefinition>,
) -> (r: RequestEnvelope)
    ensures
        r.system@ == worker_preamble(scenario.preamble),
        all_spoken(r.messages@) == seq![Spoken::User(worker_prompt(scenario.frame, context@))],
        r.tools == tools,
{
    let system = compose_worker_preamble(&scenario.preamble);
    let mut slot = String::new();
    match &scenario.frame {
        WorkerFrameFixture::Populated(_) => {
            slot.append(context);
            slot.append("\n\n");
        },
        _ => (),
    }
    assert(slot@ =~= context_slot(scenario.frame, context@));
    let prompt = render_worker_task_prompt(
        &WorkerTaskVars { context: &slot, your_task: scenario.frame.task_text() },
    );
    let mut messages: Vec<Message> = Vec::new();
    messages.push(Message::User(prompt));
    assert(all_spoken(messages@) =~= seq![
        Spoken::User(worker_prompt(scenario.frame, context@)),
    ]);
    RequestEnvelope { system, messages, tools }
}

/// The first task of a fresh plan and the first task after planning anew read
/// alike.
pub proof fn law_empty_frames_read_alike(task: String, context: Seq<char>, other: Seq<char>)
    ensures
        worker_prompt(WorkerFrameFixture::EmptyFirstTurn { task }, context) == worker_prompt(
            WorkerFrameFixture::EmptyReplanBoundary { task },
            other,
        ),
{
}

} // verus!
