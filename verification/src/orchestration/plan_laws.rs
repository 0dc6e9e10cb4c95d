//! What a plan keeps of the steps it is made from: every task once, in order,
//! numbered from the first on, and waiting only for tasks before it.
use super::plan::{flat_chain, flat_group, flat_step, Flat, Planned};
use super::types::StepInput;
use vstd::prelude::*;

verus! {

/// Whether tasks are numbered from `id` on, each waiting only for tasks before
/// it or for those in `after`, and so does whatever follows them.
pub open spec fn in_order(flat: Flat, id: int, after: Seq<int>) -> bool {
    &&& forall|k: int| 0 <= k < flat.tasks.len() ==> (#[trigger] flat.tasks[k]).id == id + k
    &&& forall|k: int, d: int|
        0 <= k < flat.tasks.len() && #[trigger] flat.tasks[k].dependencies.contains(d)
            ==> after.contains(d) || id <= d < id + k
    &&& forall|d: int| #[trigger]
        flat.ends.contains(d) ==> after.contains(d) || id <= d < id + flat.tasks.len()
}

/// What two runs of tasks come to, the second behind the first.
proof fn lemma_in_order_behind(
    first: Flat,
    second: Flat,
    ends: Seq<int>,
    id: int,
    after: Seq<int>,
    waited: Seq<int>,
)
    requires
        in_order(first, id, after),
        in_order(second, id + first.tasks.len(), waited),
        forall|d: int| #[trigger]
            waited.contains(d) ==> after.contains(d) || id <= d < id + first.tasks.len(),
        forall|d: int| #[trigger]
            ends.contains(d) ==> first.ends.contains(d) || second.ends.contains(d),
    ensures
        in_order(Flat { tasks: first.tasks + second.tasks, ends }, id, after),
{
    let all = first.tasks + second.tasks;
    let n = first.tasks.len() as int;
    assert forall|k: int| 0 <= k < all.len() implies (#[trigger] all[k]).id == id + k by {
        if k < n {
            assert(all[k] == first.tasks[k]);
        } else {
            assert(all[k] == second.tasks[k - n]);
        }
    }
    assert forall|k: int, d: int|
        0 <= k < all.len() && #[trigger] all[k].dependencies.contains(d) implies after.contains(d)
        || id <= d < id + k by {
        if k < n {
            assert(first.tasks[k].dependencies.contains(d));
        } else {
            assert(second.tasks[k - n].dependencies.contains(d));
        }
    }
}

proof fn lemma_chain(steps: Seq<StepInput>, n: int, id: int, after: Seq<int>)
    requires
        0 <= n <= steps.len(),
    ensures
        in_order(flat_chain(steps, n, id, after), id, after),
    decreases steps, n,
{
    if n > 0 {
        lemma_chain(steps, n - 1, id, after);
        let before = flat_chain(steps, n - 1, id, after);
        assert(decreases_to!(steps => steps[n - 1]));
        law_tasks_wait_for_earlier_ones(steps[n - 1], id + before.tasks.len(), before.ends);
        let next = flat_step(steps[n - 1], id + before.tasks.len(), before.ends);
        lemma_in_order_behind(before, next, next.ends, id, after, before.ends);
    }
}

proof fn lemma_group(items: Seq<StepInput>, n: int, id: int, after: Seq<int>)
    requires
        0 <= n <= items.len(),
    ensures
        in_order(flat_group(items, n, id, after), id, after),
    decreases items, n,
{
    if n > 0 {
        lemma_group(items, n - 1, id, after);
        let before = flat_group(items, n - 1, id, after);
        assert(decreases_to!(items => items[n - 1]));
        law_tasks_wait_for_earlier_ones(items[n - 1], id + before.tasks.len(), after);
        let next = flat_step(items[n - 1], id + before.tasks.len(), after);
        let ends = before.ends + next.ends;
        assert forall|d: int| #[trigger] ends.contains(d) implies before.ends.contains(d)
            || next.ends.contains(d) by {
            let i = choose|i: int| 0 <= i < ends.len() && ends[i] == d;
            if i < before.ends.len() {
                assert(before.ends[i] == d);
            } else {
                assert(next.ends[i - before.ends.len()] == d);
            }
        }
        lemma_in_order_behind(before, next, ends, id, after, after);
    }
}

/// The tasks of a step are numbered without a gap, and each waits only for
/// tasks with smaller numbers: a plan can always be run.
pub proof fn law_tasks_wait_for_earlier_ones(step: StepInput, id: int, after: Seq<int>)
    ensures
        in_order(flat_step(step, id, after), id, after),
    decreases step,
{
    match step {
        StepInput::LeafTask { task, worker } => {},
        StepInput::SubChain { steps } => {
            lemma_chain(steps@, steps@.len() as int, id, after);
        },
        StepInput::ParallelGroup { items } => {
            lemma_group(items@, items@.len() as int, id, after);
        },
    }
}

/// A whole plan is numbered from zero on, and each of its tasks waits only for
/// tasks before it.
pub proof fn law_plan_can_be_run(steps: Seq<StepInput>, k: int, d: int)
    requires
        0 <= k < flat_chain(steps, steps.len() as int, 0, Seq::empty()).tasks.len(),
    ensures
        flat_chain(steps, steps.len() as int, 0, Seq::empty()).tasks[k].id == k,
        flat_chain(steps, steps.len() as int, 0, Seq::empty()).tasks[k].dependencies.contains(d)
            ==> 0 <= d < k,
{
    lemma_chain(steps, steps.len() as int, 0, Seq::empty());
    assert(!Seq::<int>::empty().contains(d));
}

/// The tasks that a coordinator wrote down in a step, in the order in which
/// they stand, each with the worker it names.
pub open spec fn written(step: StepInput) -> Seq<(Seq<char>, Option<Seq<char>>)>
    decreases step,
{
    match step {
        StepInput::LeafTask { task, worker } => seq![
            (
                task@,
                match worker {
                    Some(name) => Some(name@),
                    None => None,
                },
            ),
        ],
        StepInput::SubChain { steps } => all_written(steps@, steps@.len() as int),
        StepInput::ParallelGroup { items } => all_written(items@, items@.len() as int),
    }
}

/// The tasks written down in the first `n` steps.
pub open spec fn all_written(steps: Seq<StepInput>, n: int) -> Seq<(Seq<char>, Option<Seq<char>>)>
    decreases steps, n,
{
    if n <= 0 || n > steps.len() {
        Seq::empty()
    } else {
        all_written(steps, n - 1) + written(steps[n - 1])
    }
}

/// What planned tasks say and who they are for.
pub open spec fn said(tasks: Seq<Planned>) -> Seq<(Seq<char>, Option<Seq<char>>)> {
    Seq::new(tasks.len(), |i: int| (tasks[i].description, tasks[i].worker))
}

proof fn lemma_chain_written(steps: Seq<StepInput>, n: int, id: int, after: Seq<int>)
    requires
        0 <= n <= steps.len(),
    ensures
        said(flat_chain(steps, n, id, after).tasks) == all_written(steps, n),
    decreases steps, n,
{
    if n > 0 {
        lemma_chain_written(steps, n - 1, id, after);
        let before = flat_chain(steps, n - 1, id, after);
        assert(decreases_to!(steps => steps[n - 1]));
        law_every_task_is_planned(steps[n - 1], id + before.tasks.len(), before.ends);
        let next = flat_step(steps[n - 1], id + before.tasks.len(), before.ends);
        assert(said(before.tasks + next.tasks) =~= said(before.tasks) + said(next.tasks));
    } else {
        assert(said(flat_chain(steps, n, id, after).tasks) =~= Seq::empty());
    }
}

proof fn lemma_group_written(items: Seq<StepInput>, n: int, id: int, after: Seq<int>)
    requires
        0 <= n <= items.len(),
    ensures
        said(flat_group(items, n, id, after).tasks) == all_written(items, n),
    decreases items, n,
{
    if n > 0 {
        lemma_group_written(items, n - 1, id, after);
        let before = flat_group(items, n - 1, id, after);
        assert(decreases_to!(items => items[n - 1]));
        law_every_task_is_planned(items[n - 1], id + before.tasks.len(), after);
        let next = flat_step(items[n - 1], id + before.tasks.len(), after);
        assert(said(before.tasks + next.tasks) =~= said(before.tasks) + said(next.tasks));
    } else {
        assert(said(flat_group(items, n, id, after).tasks) =~= Seq::empty());
    }
}

/// Every task that a step holds, at any depth, is planned once and in its
/// place, with its description and its worker.
pub proof fn law_every_task_is_planned(step: StepInput, id: int, after: Seq<int>)
    ensures
        said(flat_step(step, id, after).tasks) == written(step),
    decreases step,
{
    match step {
        StepInput::LeafTask { task, worker } => {
            assert(said(flat_step(step, id, after).tasks) =~= written(step));
        },
        StepInput::SubChain { steps } => {
            lemma_chain_written(steps@, steps@.len() as int, id, after);
        },
        StepInput::ParallelGroup { items } => {
            lemma_group_written(items@, items@.len() as int, id, after);
            if items@.len() == 0 {
                assert(said(flat_step(step, id, after).tasks) =~= written(step));
            }
        },
    }
}

/// Of two tasks that stand behind one another in a chain, the second waits for
/// the first and for nothing else.
pub proof fn law_tasks_of_a_chain_wait(steps: Seq<StepInput>, n: int, id: int, after: Seq<int>)
    requires
        0 < n < steps.len(),
        steps[n - 1] is LeafTask,
        steps[n] is LeafTask,
    ensures
        ({
            let tasks = flat_chain(steps, n + 1, id, after).tasks;
            &&& tasks.len() >= 2
            &&& tasks.last().dependencies == seq![tasks[tasks.len() - 2].id]
        }),
{
    reveal_with_fuel(flat_chain, 3);
    let earlier = flat_chain(steps, n - 1, id, after);
    let first = flat_step(steps[n - 1], id + earlier.tasks.len(), earlier.ends);
    let before = flat_chain(steps, n, id, after);
    assert(before.tasks == earlier.tasks + first.tasks);
    assert(before.tasks.last() == first.tasks[0]);
    assert(before.ends == seq![id + earlier.tasks.len()]);
    let tasks = flat_chain(steps, n + 1, id, after).tasks;
    assert(tasks[tasks.len() - 2] == before.tasks.last());
}

proof fn lemma_group_of_tasks(items: Seq<StepInput>, n: int, id: int, after: Seq<int>)
    requires
        0 <= n <= items.len(),
        forall|i: int| 0 <= i < items.len() ==> #[trigger] items[i] is LeafTask,
    ensures
        flat_group(items, n, id, after).tasks.len() == n,
        forall|k: int|
            0 <= k < n ==> (#[trigger] flat_group(items, n, id, after).tasks[k]).dependencies
                == after,
        flat_group(items, n, id, after).ends == Seq::new(n as nat, |k: int| id + k),
    decreases n,
{
    if n > 0 {
        lemma_group_of_tasks(items, n - 1, id, after);
        let before = flat_group(items, n - 1, id, after);
        assert(items[n - 1] is LeafTask);
        let next = flat_step(items[n - 1], id + before.tasks.len(), after);
        let all = flat_group(items, n, id, after);
        assert(all.ends =~= Seq::new(n as nat, |k: int| id + k));
        assert forall|k: int| 0 <= k < n implies (#[trigger] all.tasks[k]).dependencies
            == after by {
            if k < n - 1 {
                assert(all.tasks[k] == before.tasks[k]);
            } else {
                assert(all.tasks[k] == next.tasks[0]);
            }
        }
    } else {
        assert(flat_group(items, n, id, after).ends =~= Seq::new(n as nat, |k: int| id + k));
    }
}

/// The tasks of a group do not wait for one another, only for what the group
/// waits for; and what comes behind the group waits for all of them.
pub proof fn law_tasks_of_a_group_run_side_by_side(items: Vec<StepInput>, id: int, after: Seq<int>)
    requires
        items@.len() > 0,
        forall|i: int| 0 <= i < items@.len() ==> #[trigger] items@[i] is LeafTask,
    ensures
        ({
            let flat = flat_step(StepInput::ParallelGroup { items }, id, after);
            &&& flat.tasks.len() == items@.len()
            &&& forall|k: int|
                0 <= k < flat.tasks.len() ==> (#[trigger] flat.tasks[k]).dependencies == after
            &&& flat.ends == Seq::new(items@.len(), |k: int| id + k)
        }),
{
    lemma_group_of_tasks(items@, items@.len() as int, id, after);
}

} // verus!
