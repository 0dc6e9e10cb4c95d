//! Plans: the tasks of a round, what they depend on, and how they ended.
use super::types::{FailureCategory, StepInput, StructuredTaskOutput};
use vstd::prelude::*;

verus! {

/// How a task stands.
#[derive(Debug, PartialEq, Eq)]
pub enum TaskState {
    Pending,
    Complete { result: String },
    Failed { error: String, category: FailureCategory },
}

/// One task of a plan.
#[derive(Debug, PartialEq, Eq)]
pub struct Task {
    pub id: usize,
    pub description: String,
    pub rationale: String,
    pub worker: Option<String>,
    /// The ids of the tasks that must have ended before.
    pub dependencies: Vec<usize>,
    pub state: TaskState,
    /// What the worker said of its result.
    pub structured_output: Option<StructuredTaskOutput>,
}

impl Task {
    /// A task that depends on nothing and has not run.
    pub fn new(id: usize, description: &str, rationale: &str) -> (r: Task)
        ensures
            r.id == id,
            r.description@ == description@,
            r.rationale@ == rationale@,
            r.worker is None,
            r.dependencies@.len() == 0,
            r.state is Pending,
            r.structured_output is None,
    {
        Task {
            id,
            description: description.to_owned(),
            rationale: rationale.to_owned(),
            worker: None,
            dependencies: Vec::new(),
            state: TaskState::Pending,
            structured_output: None,
        }
    }

    /// The task with one dependency more.
    pub fn with_dependency(self, id: usize) -> (r: Task)
        ensures
            r.dependencies@ == self.dependencies@.push(id),
            r.id == self.id,
            r.description == self.description,
            r.rationale == self.rationale,
            r.worker == self.worker,
            r.state == self.state,
            r.structured_output == self.structured_output,
    {
        let mut task = self;
        task.dependencies.push(id);
        task
    }

    /// The task ended with a result.
    pub fn complete(&mut self, result: String)
        ensures
            final(self).state == (TaskState::Complete { result }),
            final(self).id == old(self).id,
            final(self).description == old(self).description,
            final(self).rationale == old(self).rationale,
            final(self).worker == old(self).worker,
            final(self).dependencies == old(self).dependencies,
            final(self).structured_output == old(self).structured_output,
    {
        self.state = TaskState::Complete { result };
    }

    /// The task failed.
    pub fn fail(&mut self, error: String, category: FailureCategory)
        ensures
            final(self).state == (TaskState::Failed { error, category }),
            final(self).id == old(self).id,
            final(self).description == old(self).description,
            final(self).rationale == old(self).rationale,
            final(self).worker == old(self).worker,
            final(self).dependencies == old(self).dependencies,
            final(self).structured_output == old(self).structured_output,
    {
        self.state = TaskState::Failed { error, category };
    }
}

/// The tasks of a round.
#[derive(Debug, PartialEq, Eq)]
pub struct Plan {
    pub goal: String,
    pub tasks: Vec<Task>,
}

impl Plan {
    /// A plan without tasks.
    pub fn new(goal: &str) -> (r: Plan)
        ensures
            r.goal@ == goal@,
            r.tasks@.len() == 0,
    {
        Plan { goal: goal.to_owned(), tasks: Vec::new() }
    }

    /// Adds a task behind the others.
    pub fn add_task(&mut self, task: Task)
        ensures
            final(self).tasks@ == old(self).tasks@.push(task),
            final(self).goal == old(self).goal,
    {
        self.tasks.push(task);
    }
}

// ---------------------------------------------------------------------------
// From steps to tasks
// ---------------------------------------------------------------------------

/// What a planned task is.
pub struct Planned {
    pub id: int,
    pub description: Seq<char>,
    pub worker: Option<Seq<char>>,
    pub dependencies: Seq<int>,
}

/// The tasks that steps come to, and those of them that the next step waits
/// for.
pub struct Flat {
    pub tasks: Seq<Planned>,
    pub ends: Seq<int>,
}

/// The first `n` steps of a chain, with ids from `id` on: each step waits for
/// the one before it, the first for the tasks in `after`.
pub open spec fn flat_chain(steps: Seq<StepInput>, n: int, id: int, after: Seq<int>) -> Flat
    decreases steps, n,
{
    if n <= 0 || n > steps.len() {
        Flat { tasks: Seq::empty(), ends: after }
    } else {
        let before = flat_chain(steps, n - 1, id, after);
        let next = flat_step(steps[n - 1], id + before.tasks.len(), before.ends);
        Flat { tasks: before.tasks + next.tasks, ends: next.ends }
    }
}

/// The first `n` items of a group, with ids from `id` on: each waits for the
/// tasks in `after`, and the next step waits for them all.
pub open spec fn flat_group(items: Seq<StepInput>, n: int, id: int, after: Seq<int>) -> Flat
    decreases items, n,
{
    if n <= 0 || n > items.len() {
        Flat { tasks: Seq::empty(), ends: Seq::empty() }
    } else {
        let before = flat_group(items, n - 1, id, after);
        let next = flat_step(items[n - 1], id + before.tasks.len(), after);
        Flat { tasks: before.tasks + next.tasks, ends: before.ends + next.ends }
    }
}

/// The tasks that a step comes to.
pub open spec fn flat_step(step: StepInput, id: int, after: Seq<int>) -> Flat
    decreases step,
{
    match step {
        StepInput::LeafTask { task, worker } => Flat {
            tasks: seq![
                Planned {
                    id,
                    description: task@,
                    worker: match worker {
                        Some(name) => Some(name@),
                        None => None,
                    },
                    dependencies: after,
                },
            ],
            ends: seq![id],
        },
        StepInput::SubChain { steps } => flat_chain(steps@, steps@.len() as int, id, after),
        StepInput::ParallelGroup { items } => if items@.len() == 0 {
            Flat { tasks: Seq::empty(), ends: after }
        } else {
            flat_group(items@, items@.len() as int, id, after)
        },
    }
}

/// The ids by their numbers.
pub open spec fn numbers(ids: Seq<usize>) -> Seq<int> {
    Seq::new(ids.len(), |i: int| ids[i] as int)
}

/// What the tasks of a list are.
pub open spec fn planned(tasks: Seq<Task>) -> Seq<Planned> {
    Seq::new(
        tasks.len(),
        |i: int|
            Planned {
                id: tasks[i].id as int,
                description: tasks[i].description@,
                worker: match tasks[i].worker {
                    Some(name) => Some(name@),
                    None => None,
                },
                dependencies: numbers(tasks[i].dependencies@),
            },
    )
}

/// Whether no task of a list has run.
pub open spec fn all_pending(tasks: Seq<Task>) -> bool {
    forall|i: int| 0 <= i < tasks.len() ==> (#[trigger] tasks[i]).state is Pending
}

fn copy_ids(ids: &Vec<usize>) -> (r: Vec<usize>)
    ensures
        r@ == ids@,
{
    let mut r: Vec<usize> = Vec::new();
    for i in 0..ids.len()
        invariant
            r@ == ids@.take(i as int),
    {
        r.push(ids[i]);
        assert(ids@.take(i + 1) =~= ids@.take(i as int).push(ids@[i as int]));
    }
    assert(ids@.take(ids.len() as int) =~= ids@);
    r
}

fn flatten_chain(steps: &Vec<StepInput>, after: &Vec<usize>, out: &mut Vec<Task>) -> (r: Vec<usize>)
    requires
        all_pending(old(out)@),
    ensures
        all_pending(final(out)@),
        planned(final(out)@) == planned(old(out)@) + flat_chain(
            steps@,
            steps@.len() as int,
            old(out)@.len() as int,
            numbers(after@),
        ).tasks,
        numbers(r@) == flat_chain(
            steps@,
            steps@.len() as int,
            old(out)@.len() as int,
            numbers(after@),
        ).ends,
    decreases steps@,
{
    let ghost given = planned(out@);
    let ghost id = out@.len() as int;
    let mut ends = copy_ids(after);
    assert(planned(out@) =~= given + flat_chain(steps@, 0, id, numbers(after@)).tasks);
    for i in 0..steps.len()
        invariant
            all_pending(out@),
            id == given.len(),
            planned(out@) == given + flat_chain(steps@, i as int, id, numbers(after@)).tasks,
            numbers(ends@) == flat_chain(steps@, i as int, id, numbers(after@)).ends,
    {
        assert(decreases_to!(steps@ => steps@[i as int]));
        let ghost before = flat_chain(steps@, i as int, id, numbers(after@));
        assert(out@.len() == planned(out@).len());
        ends = flatten_into(&steps[i], &ends, out);
        proof {
            let next = flat_step(steps@[i as int], id + before.tasks.len(), before.ends);
            assert(planned(out@) =~= given + (before.tasks + next.tasks));
        }
    }
    ends
}

fn flatten_group(items: &Vec<StepInput>, after: &Vec<usize>, out: &mut Vec<Task>) -> (r: Vec<usize>)
    requires
        all_pending(old(out)@),
    ensures
        all_pending(final(out)@),
        planned(final(out)@) == planned(old(out)@) + flat_group(
            items@,
            items@.len() as int,
            old(out)@.len() as int,
            numbers(after@),
        ).tasks,
        numbers(r@) == flat_group(
            items@,
            items@.len() as int,
            old(out)@.len() as int,
            numbers(after@),
        ).ends,
    decreases items@,
{
    let ghost given = planned(out@);
    let ghost id = out@.len() as int;
    let mut ends: Vec<usize> = Vec::new();
    assert(planned(out@) =~= given + flat_group(items@, 0, id, numbers(after@)).tasks);
    assert(numbers(ends@) =~= Seq::<int>::empty());
    for i in 0..items.len()
        invariant
            all_pending(out@),
            id == given.len(),
            planned(out@) == given + flat_group(items@, i as int, id, numbers(after@)).tasks,
            numbers(ends@) == flat_group(items@, i as int, id, numbers(after@)).ends,
    {
        assert(decreases_to!(items@ => items@[i as int]));
        let ghost before = flat_group(items@, i as int, id, numbers(after@));
        let ghost earlier = ends@;
        assert(out@.len() == planned(out@).len());
        let more = flatten_into(&items[i], after, out);
        for k in 0..more.len()
            invariant
                ends@ == earlier + more@.take(k as int),
        {
            ends.push(more[k]);
            assert(more@.take(k + 1) =~= more@.take(k as int).push(more@[k as int]));
            assert(ends@ =~= earlier + more@.take(k + 1));
        }
        proof {
            assert(more@.take(more.len() as int) =~= more@);
            let next = flat_step(items@[i as int], id + before.tasks.len(), numbers(after@));
            assert(planned(out@) =~= given + (before.tasks + next.tasks));
            assert(numbers(ends@) =~= before.ends + next.ends);
        }
    }
    ends
}

fn flatten_into(step: &StepInput, after: &Vec<usize>, out: &mut Vec<Task>) -> (r: Vec<usize>)
    requires
        all_pending(old(out)@),
    ensures
        all_pending(final(out)@),
        planned(final(out)@) == planned(old(out)@) + flat_step(
            *step,
            old(out)@.len() as int,
            numbers(after@),
        ).tasks,
        numbers(r@) == flat_step(*step, old(out)@.len() as int, numbers(after@)).ends,
    decreases step,
{
    let ghost given = planned(out@);
    match step {
        StepInput::LeafTask { task, worker } => {
            let id: usize = out.len();
            let mut next = Task::new(id, task, "");
            next.worker = worker.clone();
            next.dependencies = copy_ids(after);
            out.push(next);
            let mut ends: Vec<usize> = Vec::new();
            ends.push(id);
            proof {
                assert(planned(out@) =~= given + flat_step(*step, id as int, numbers(after@)).tasks);
                assert(numbers(ends@) =~= seq![id as int]);
            }
            ends
        },
        StepInput::SubChain { steps } => flatten_chain(steps, after, out),
        StepInput::ParallelGroup { items } => if items.len() == 0 {
            assert(planned(out@) =~= given + Seq::<Planned>::empty());
            copy_ids(after)
        } else {
            flatten_group(items, after, out)
        },
    }
}

/// The plan that steps come to, each waiting for the one before it; none
/// where they hold no task.
pub fn into_plan(goal: &str, steps: &Vec<StepInput>) -> (r: Option<Plan>)
    ensures
        ({
            let flat = flat_chain(steps@, steps@.len() as int, 0, Seq::empty()).tasks;
            match r {
                Some(plan) => plan.goal@ == goal@ && flat.len() > 0 && planned(plan.tasks@) == flat
                    && all_pending(plan.tasks@),
                None => flat.len() == 0,
            }
        }),
{
    let mut tasks: Vec<Task> = Vec::new();
    let none: Vec<usize> = Vec::new();
    proof {
        assert(numbers(none@) =~= Seq::<int>::empty());
    }
    let _ = flatten_chain(steps, &none, &mut tasks);
    proof {
        let flat = flat_chain(steps@, steps@.len() as int, 0, Seq::empty()).tasks;
        assert(planned(Seq::<Task>::empty()) + flat =~= flat);
        assert(planned(tasks@).len() == tasks@.len());
    }
    if tasks.len() == 0 {
        None
    } else {
        Some(Plan { goal: goal.to_owned(), tasks })
    }
}

} // verus!
