//! What stands behind a worker's prior work, and which tasks a scenario may
//! hold.
use super::frame_graph::{depends, has_prior_work, is_ancestor, leads, place_of};
use super::scenario::{
    decided_tasks, first_stray, is_stray, stray_task, CompletedResultFixture, IterationFixture,
    SpilledStandIn, TaskOutcome,
};
use crate::orchestration::context::evidence::footer_text;
use crate::orchestration::plan::{Planned, Task};
use crate::text::numerals::numeral;
use crate::text::parts::lemma_holds;
use crate::text::search::contains_text;
use vstd::prelude::*;

verus! {

// ---------------------------------------------------------------------------
// Ancestors
// ---------------------------------------------------------------------------

/// Whether no two tasks have one id.
pub open spec fn distinct_ids(tasks: Seq<Task>) -> bool {
    forall|i: int, j: int|
        0 <= i < j < tasks.len() ==> (#[trigger] tasks[i]).id != (#[trigger] tasks[j]).id
}

proof fn lemma_place(tasks: Seq<Task>, q: int, i: int)
    requires
        distinct_ids(tasks),
        0 <= i <= q < tasks.len(),
    ensures
        place_of(tasks, tasks[q].id, i) == Some(q),
    decreases q - i,
{
    if i < q {
        assert(tasks[i].id != tasks[q].id);
        lemma_place(tasks, q, i + 1);
    }
}

proof fn lemma_place_is(tasks: Seq<Task>, id: usize, i: int)
    requires
        0 <= i <= tasks.len(),
    ensures
        place_of(tasks, id, i) matches Some(q) ==> i <= q < tasks.len() && tasks[q].id == id,
    decreases tasks.len() - i,
{
    if i < tasks.len() {
        lemma_place_is(tasks, id, i + 1);
    }
}

/// A task depends on another exactly where it names the other's id.
pub proof fn law_dependencies_go_by_id(tasks: Seq<Task>, p: int, q: int)
    requires
        distinct_ids(tasks),
        0 <= p < tasks.len(),
        0 <= q < tasks.len(),
    ensures
        depends(tasks, p, q) <==> tasks[p].dependencies@.contains(tasks[q].id),
{
    let ids = tasks[p].dependencies@;
    lemma_place(tasks, q, 0);
    if ids.contains(tasks[q].id) {
        let k = choose|k: int| 0 <= k < ids.len() && ids[k] == tasks[q].id;
        assert(place_of(tasks, tasks[p].dependencies@[k], 0) == Some(q));
    }
    if depends(tasks, p, q) {
        let k = choose|k: int|
            0 <= k < tasks[p].dependencies@.len() && place_of(
                tasks,
                #[trigger] tasks[p].dependencies@[k],
                0,
            ) == Some(q);
        lemma_place_is(tasks, ids[k], 0);
        assert(ids[k] == tasks[q].id);
    }
}

proof fn lemma_leads_on(tasks: Seq<Task>, p: int, q: int, r: int, m: nat, n: nat)
    requires
        leads(tasks, p, q, m),
        leads(tasks, q, r, n),
    ensures
        leads(tasks, p, r, m + n),
    decreases m,
{
    if m > 0 {
        let x = choose|x: int| #[trigger]
            depends(tasks, p, x) && leads(tasks, x, q, (m - 1) as nat);
        lemma_leads_on(tasks, x, q, r, (m - 1) as nat, n);
        assert((m + n - 1) as nat == (m - 1) as nat + n);
    }
}

/// What a task depends on is an ancestor, and so are the ancestors of an
/// ancestor.
pub proof fn law_ancestors(tasks: Seq<Task>, p: int, q: int, r: int)
    ensures
        depends(tasks, p, q) ==> is_ancestor(tasks, p, q),
        is_ancestor(tasks, p, q) && is_ancestor(tasks, q, r) ==> is_ancestor(tasks, p, r),
{
    if depends(tasks, p, q) {
        assert(leads(tasks, q, q, 0));
        reveal_with_fuel(leads, 2);
        assert(depends(tasks, p, q) && leads(tasks, q, q, (1nat - 1) as nat));
        assert(leads(tasks, p, q, 1));
    }
    if is_ancestor(tasks, p, q) && is_ancestor(tasks, q, r) {
        let m = choose|m: nat| m > 0 && #[trigger] leads(tasks, p, q, m);
        let n = choose|n: nat| n > 0 && #[trigger] leads(tasks, q, r, n);
        lemma_leads_on(tasks, p, q, r, m, n);
        assert(leads(tasks, p, r, m + n));
    }
}

/// A task that waits for nothing has no prior work, and one that waits for a
/// completed task has.
pub proof fn law_prior_work_comes_from_dependencies(tasks: Seq<Task>, p: int, q: int)
    requires
        distinct_ids(tasks),
        0 <= p < tasks.len(),
        0 <= q < tasks.len(),
    ensures
        tasks[p].dependencies@.len() == 0 ==> !has_prior_work(tasks, tasks[p].id),
        tasks[p].dependencies@.contains(tasks[q].id) && tasks[q].state is Complete
            ==> has_prior_work(tasks, tasks[p].id),
{
    lemma_place(tasks, p, 0);
    if tasks[p].dependencies@.len() == 0 && has_prior_work(tasks, tasks[p].id) {
        let x = choose|x: int|
            0 <= x < tasks.len() && #[trigger] is_ancestor(tasks, p, x) && tasks[x].state
                is Complete;
        let n = choose|n: nat| n > 0 && #[trigger] leads(tasks, p, x, n);
        let m = choose|m: int| #[trigger]
            depends(tasks, p, m) && leads(tasks, m, x, (n - 1) as nat);
        assert(depends(tasks, p, m));
    }
    if tasks[p].dependencies@.contains(tasks[q].id) {
        law_dependencies_go_by_id(tasks, p, q);
        law_ancestors(tasks, p, q, q);
    }
}

// ---------------------------------------------------------------------------
// Workers
// ---------------------------------------------------------------------------

/// Whether a completed task's worker is among the configured ones, where the
/// task names one.
pub open spec fn is_known(task: Planned, outcome: TaskOutcome, workers: Seq<String>) -> bool {
    outcome is Complete && task.worker is Some ==> exists|i: int|
        0 <= i < workers.len() && (#[trigger] workers[i])@ == task.worker->0
}

proof fn lemma_first_stray(
    tasks: Seq<Planned>,
    outcomes: Seq<TaskOutcome>,
    workers: Seq<String>,
    i: int,
)
    requires
        0 <= i <= tasks.len(),
    ensures
        match first_stray(tasks, outcomes, workers, i) {
            Some(k) => i <= k < tasks.len() && !is_known(tasks[k], outcomes[k], workers) && (
            forall|j: int| i <= j < k ==> is_known(#[trigger] tasks[j], outcomes[j], workers)),
            None => forall|j: int|
                i <= j < tasks.len() ==> is_known(#[trigger] tasks[j], outcomes[j], workers),
        },
    decreases tasks.len() - i,
{
    if i < tasks.len() {
        assert(is_stray(tasks[i], outcomes[i], workers) == !is_known(
            tasks[i],
            outcomes[i],
            workers,
        ));
        lemma_first_stray(tasks, outcomes, workers, i + 1);
    }
}

/// A scenario is refused for a task exactly where some round has a task that
/// was completed by a worker that is not configured, and that task is named.
pub proof fn law_completed_tasks_have_known_workers(
    rounds: Seq<IterationFixture>,
    workers: Seq<String>,
    i: int,
)
    requires
        0 <= i <= rounds.len(),
    ensures
        match stray_task(rounds, workers, i) {
            Some(task) => exists|r: int, k: int|
                {
                    let tasks = decided_tasks(rounds[r].opened_by().written());
                    &&& i <= r < rounds.len()
                    &&& 0 <= k < tasks.len()
                    &&& task == #[trigger] decided_tasks(rounds[r].opened_by().written())[k]
                    &&& !is_known(task, rounds[r].ended()[k], workers)
                },
            None => forall|r: int, k: int|
                i <= r < rounds.len() && 0 <= k < decided_tasks(
                    rounds[r].opened_by().written(),
                ).len() ==> is_known(
                    #[trigger] decided_tasks(rounds[r].opened_by().written())[k],
                    rounds[r].ended()[k],
                    workers,
                ),
        },
    decreases rounds.len() - i,
{
    if i < rounds.len() {
        let tasks = decided_tasks(rounds[i].opened_by().written());
        lemma_first_stray(tasks, rounds[i].ended(), workers, 0);
        law_completed_tasks_have_known_workers(rounds, workers, i + 1);
        match first_stray(tasks, rounds[i].ended(), workers, 0) {
            Some(k) => {
                assert(tasks[k] == decided_tasks(rounds[i].opened_by().written())[k]);
            },
            None => {},
        }
    }
}

// ---------------------------------------------------------------------------
// Stored results
// ---------------------------------------------------------------------------

/// An inline result is stored as it is; a spilled one begins with what stands
/// for it and ends with the pointer, which names its file and its length.
pub proof fn law_results_are_stored_as_reported(result: CompletedResultFixture)
    ensures
        match result {
            CompletedResultFixture::Inline { result: text, claim } => {
                &&& result.stored() == text@
                &&& result.stated() == claim
            },
            CompletedResultFixture::Spilled { stand_in, artifact } => {
                &&& contains_text(
                    result.stored(),
                    "[Full result ("@ + numeral(artifact.chars() as nat)
                        + " chars) saved to artifact: "@ + artifact.file() + "]"@,
                )
                &&& match stand_in {
                    SpilledStandIn::ClaimEcho { claim } => {
                        &&& claim.summary_text().is_prefix_of(result.stored())
                        &&& result.stated() == Some(claim)
                    },
                    SpilledStandIn::RawPreview { preview, claim } => {
                        &&& preview@.is_prefix_of(result.stored())
                        &&& result.stated() == claim
                    },
                    SpilledStandIn::NoPreview => result.stated() is None,
                }
            },
        },
{
    match result {
        CompletedResultFixture::Inline { result: text, claim } => {},
        CompletedResultFixture::Spilled { stand_in, artifact } => {
            let footer = footer_text(artifact.file(), artifact.chars());
            let text = result.stored();
            let before = stand_in.text() + "\n\n"@;
            assert(text =~= before + footer + Seq::empty());
            lemma_holds(before, footer, Seq::empty());
            let start = stand_in.text();
            assert(start =~= text.take(start.len() as int));
        },
    }
}

} // verus!
