//! Tasks with prior work behind them.
use super::scenario::FixtureError;
use crate::orchestration::plan::{Plan, Task, TaskState};
use vstd::prelude::*;

verus! {

/// The place of the first task with an id, from place `i` on.
pub open spec fn place_of(tasks: Seq<Task>, id: usize, i: int) -> Option<int>
    decreases tasks.len() - i,
{
    if i < 0 || i >= tasks.len() {
        None
    } else if tasks[i].id == id {
        Some(i)
    } else {
        place_of(tasks, id, i + 1)
    }
}

/// Whether the task at place `p` depends on the one at place `q`.
pub open spec fn depends(tasks: Seq<Task>, p: int, q: int) -> bool {
    exists|k: int|
        0 <= k < tasks[p].dependencies@.len() && place_of(
            tasks,
            #[trigger] tasks[p].dependencies@[k],
            0,
        ) == Some(q)
}

/// Whether `n` steps from a task to one it depends on lead from `p` to `q`.
pub open spec fn leads(tasks: Seq<Task>, p: int, q: int, n: nat) -> bool
    decreases n,
{
    if n == 0 {
        p == q
    } else {
        exists|m: int| #[trigger] depends(tasks, p, m) && leads(tasks, m, q, (n - 1) as nat)
    }
}

/// Whether the task at place `q` is an ancestor of the one at place `p`.
pub open spec fn is_ancestor(tasks: Seq<Task>, p: int, q: int) -> bool {
    exists|n: nat| n > 0 && #[trigger] leads(tasks, p, q, n)
}

/// Whether an ancestor of the task at place `p` was completed.
pub open spec fn has_completed_ancestor(tasks: Seq<Task>, p: int) -> bool {
    exists|q: int|
        0 <= q < tasks.len() && #[trigger] is_ancestor(tasks, p, q) && tasks[q].state is Complete
}

/// Whether an ancestor of the task with an id was completed.
pub open spec fn has_prior_work(tasks: Seq<Task>, id: usize) -> bool {
    match place_of(tasks, id, 0) {
        Some(p) => has_completed_ancestor(tasks, p),
        None => false,
    }
}

proof fn lemma_place_of(tasks: Seq<Task>, id: usize, i: int)
    requires
        0 <= i <= tasks.len(),
    ensures
        place_of(tasks, id, i) matches Some(q) ==> i <= q < tasks.len() && tasks[q].id == id,
    decreases tasks.len() - i,
{
    if i < tasks.len() {
        lemma_place_of(tasks, id, i + 1);
    }
}

/// One step more at the end.
proof fn lemma_one_step_more(tasks: Seq<Task>, p: int, q: int, m: int, n: nat)
    requires
        leads(tasks, p, q, n),
        depends(tasks, q, m),
    ensures
        leads(tasks, p, m, n + 1),
    decreases n,
{
    if n == 0 {
        assert(leads(tasks, m, m, 0));
        assert(depends(tasks, p, m) && leads(tasks, m, m, ((n + 1) - 1) as nat));
    } else {
        let x = choose|x: int| #[trigger]
            depends(tasks, p, x) && leads(tasks, x, q, (n - 1) as nat);
        lemma_one_step_more(tasks, x, q, m, (n - 1) as nat);
        assert(depends(tasks, p, x) && leads(tasks, x, m, ((n + 1) - 1) as nat));
    }
}

/// Whether everything that a marked task depends on is marked too.
spec fn is_closed(tasks: Seq<Task>, marked: Seq<bool>) -> bool {
    forall|q: int, m: int|
        0 <= q < tasks.len() && marked[q] && #[trigger] depends(tasks, q, m) ==> 0 <= m
            < tasks.len() && marked[m]
}

proof fn lemma_closed(tasks: Seq<Task>, marked: Seq<bool>, p: int, q: int, n: nat)
    requires
        is_closed(tasks, marked),
        0 <= p < tasks.len(),
        marked[p],
        leads(tasks, p, q, n),
    ensures
        0 <= q < tasks.len(),
        marked[q],
    decreases n,
{
    if n > 0 {
        let m = choose|m: int| #[trigger]
            depends(tasks, p, m) && leads(tasks, m, q, (n - 1) as nat);
        lemma_closed(tasks, marked, m, q, (n - 1) as nat);
    }
}

spec fn unmarked(marked: Seq<bool>) -> nat
    decreases marked.len(),
{
    if marked.len() == 0 {
        0
    } else {
        unmarked(marked.drop_last()) + if marked.last() {
            0nat
        } else {
            1nat
        }
    }
}

proof fn lemma_mark(marked: Seq<bool>, i: int)
    requires
        0 <= i < marked.len(),
        !marked[i],
    ensures
        unmarked(marked.update(i, true)) + 1 == unmarked(marked),
    decreases marked.len(),
{
    let after = marked.update(i, true);
    if i == marked.len() - 1 {
        assert(after.drop_last() =~= marked.drop_last());
    } else {
        assert(after.drop_last() =~= marked.drop_last().update(i, true));
        lemma_mark(marked.drop_last(), i);
    }
}

fn find_place(tasks: &Vec<Task>, id: usize) -> (r: Option<usize>)
    ensures
        match r {
            Some(i) => i < tasks.len() && place_of(tasks@, id, 0) == Some(i as int),
            None => place_of(tasks@, id, 0) is None,
        },
{
    for i in 0..tasks.len()
        invariant
            place_of(tasks@, id, 0) == place_of(tasks@, id, i as int),
    {
        if tasks[i].id == id {
            return Some(i);
        }
    }
    None
}

/// What holds while the ancestors of the task at place `p` are being marked:
/// every marked task is an ancestor and is queued, and all that the first `k`
/// queued tasks depend on is marked.
spec fn marking(tasks: Seq<Task>, p: int, marked: Seq<bool>, queue: Seq<usize>, k: int) -> bool {
    &&& 0 <= p < tasks.len()
    &&& marked.len() == tasks.len()
    &&& 0 <= k <= queue.len()
    &&& queue.len() > 0 && queue[0] == p
    &&& forall|j: int| 0 < j < queue.len() ==> (#[trigger] queue[j]) < tasks.len() && marked[
        queue[j] as int]
    &&& forall|q: int| 0 <= q < tasks.len() && #[trigger] marked[q] ==> is_ancestor(tasks, p, q)
    &&& forall|q: int|
        0 <= q < tasks.len() && #[trigger] marked[q] ==> queue.skip(1).contains(q as usize)
    &&& forall|j: int, m: int|
        #![trigger queue[j], depends(tasks, queue[j] as int, m)]
        0 <= j < k && depends(tasks, queue[j] as int, m) ==> 0 <= m < tasks.len() && marked[m]
}

/// What the task at a queued place depends on is an ancestor.
proof fn lemma_next_ancestor(
    tasks: Seq<Task>,
    p: int,
    marked: Seq<bool>,
    queue: Seq<usize>,
    k: int,
    m: int,
)
    requires
        marking(tasks, p, marked, queue, k),
        k < queue.len(),
        depends(tasks, queue[k] as int, m),
    ensures
        is_ancestor(tasks, p, m),
{
    let head = queue[k] as int;
    if k == 0 {
        assert(leads(tasks, p, p, 0));
        lemma_one_step_more(tasks, p, p, m, 0);
        assert(leads(tasks, p, m, 1));
    } else {
        assert(marked[head]);
        assert(is_ancestor(tasks, p, head));
        let n = choose|n: nat| n > 0 && #[trigger] leads(tasks, p, head, n);
        lemma_one_step_more(tasks, p, head, m, n);
        assert(leads(tasks, p, m, n + 1));
    }
}

/// Marking and queueing one more.
proof fn lemma_marking(
    tasks: Seq<Task>,
    p: int,
    marked: Seq<bool>,
    queue: Seq<usize>,
    k: int,
    m: usize,
)
    requires
        marking(tasks, p, marked, queue, k),
        k < queue.len(),
        m < tasks.len(),
        depends(tasks, queue[k] as int, m as int),
    ensures
        marking(tasks, p, marked.update(m as int, true), queue.push(m), k),
{
    let after = marked.update(m as int, true);
    let longer = queue.push(m);
    lemma_next_ancestor(tasks, p, marked, queue, k, m as int);
    assert forall|q: int| 0 <= q < tasks.len() && #[trigger] after[q] implies longer.skip(
        1,
    ).contains(q as usize) by {
        if q == m {
            assert(longer.skip(1)[queue.len() - 1] == m);
        } else {
            assert(marked[q]);
            let j = choose|j: int|
                0 <= j < queue.skip(1).len() && queue.skip(1)[j] == q as usize;
            assert(longer.skip(1)[j] == q as usize);
        }
    }
    assert forall|j: int, i: int|
        #![trigger longer[j], depends(tasks, longer[j] as int, i)]
        0 <= j < k && depends(tasks, longer[j] as int, i) implies 0 <= i < tasks.len()
        && after[i] by {
        assert(longer[j] == queue[j]);
        assert(depends(tasks, queue[j] as int, i));
    }
}

/// One dependency of the task at the head of the queue.
fn mark_one(
    tasks: &Vec<Task>,
    id: usize,
    marked: &mut Vec<bool>,
    queue: &mut Vec<usize>,
    Ghost(p): Ghost<int>,
    Ghost(k): Ghost<int>,
    Ghost(d): Ghost<int>,
)
    requires
        marking(tasks@, p, old(marked)@, old(queue)@, k),
        k < old(queue)@.len(),
        0 <= d < tasks@[old(queue)@[k] as int].dependencies@.len(),
        tasks@[old(queue)@[k] as int].dependencies@[d] == id,
    ensures
        marking(tasks@, p, final(marked)@, final(queue)@, k),
        final(queue)@.len() >= old(queue)@.len(),
        forall|j: int| 0 <= j < old(queue)@.len() ==> #[trigger] final(queue)@[j] == old(queue)@[j],
        forall|q: int| 0 <= q < tasks@.len() && #[trigger] old(marked)@[q] ==> final(marked)@[q],
        place_of(tasks@, id, 0) matches Some(m) ==> 0 <= m < tasks@.len() && final(marked)@[m],
        unmarked(final(marked)@) < unmarked(old(marked)@) || (final(marked)@ == old(marked)@
            && final(queue)@ == old(queue)@),
{
    let ghost before = marked@;
    let ghost queued = queue@;
    match find_place(tasks, id) {
        Some(m) => if !marked[m] {
            marked.set(m, true);
            queue.push(m);
            proof {
                lemma_mark(before, m as int);
                assert(depends(tasks@, queued[k] as int, m as int));
                lemma_marking(tasks@, p, before, queued, k, m);
            }
        },
        None => (),
    }
}

/// Marks every ancestor of the task at place `p`.
fn mark_ancestors(tasks: &Vec<Task>, p: usize) -> (r: Vec<bool>)
    requires
        p < tasks.len(),
    ensures
        r.len() == tasks.len(),
        forall|q: int|
            0 <= q < tasks.len() ==> #[trigger] r@[q] == is_ancestor(tasks@, p as int, q),
{
    let mut marked: Vec<bool> = Vec::new();
    for i in 0..tasks.len()
        invariant
            marked.len() == i,
            forall|j: int| 0 <= j < i ==> !(#[trigger] marked@[j]),
    {
        marked.push(false);
    }
    let mut queue: Vec<usize> = Vec::new();
    queue.push(p);
    let mut k: usize = 0;
    while k < queue.len()
        invariant
            marking(tasks@, p as int, marked@, queue@, k as int),
        decreases unmarked(marked@), queue.len() - k,
    {
        let head: usize = queue[k];
        let ghost start = unmarked(marked@);
        let ghost length = queue@.len();
        assert(head < tasks.len()) by {
            if k > 0 {
                assert(queue@[k as int] < tasks@.len());
            }
        }
        let deps = &tasks[head].dependencies;
        let mut d: usize = 0;
        while d < deps.len()
            invariant
                head < tasks.len(),
                *deps == tasks@[head as int].dependencies,
                d <= deps.len(),
                k < queue.len(),
                queue@[k as int] == head,
                marking(tasks@, p as int, marked@, queue@, k as int),
                unmarked(marked@) < start || (unmarked(marked@) == start && queue@.len() == length),
                forall|e: int|
                    0 <= e < d ==> (place_of(tasks@, #[trigger] deps@[e], 0) matches Some(m) ==> 0
                        <= m < tasks@.len() && marked@[m]),
            decreases deps.len() - d,
        {
            let ghost earlier = marked@;
            mark_one(
                tasks,
                deps[d],
                &mut marked,
                &mut queue,
                Ghost(p as int),
                Ghost(k as int),
                Ghost(d as int),
            );
            proof {
                assert forall|e: int| 0 <= e < d + 1 implies (place_of(
                    tasks@,
                    #[trigger] deps@[e],
                    0,
                ) matches Some(m) ==> 0 <= m < tasks@.len() && marked@[m]) by {
                    if e < d {
                        match place_of(tasks@, deps@[e], 0) {
                            Some(m) => {
                                assert(earlier[m]);
                            },
                            None => {},
                        }
                    }
                }
            }
            d = d + 1;
        }
        proof {
            assert forall|j: int, m: int|
                #![trigger queue@[j], depends(tasks@, queue@[j] as int, m)]
                0 <= j < k + 1 && depends(tasks@, queue@[j] as int, m) implies 0 <= m < tasks@.len()
                && marked@[m] by {
                if j == k {
                    let e = choose|e: int|
                        0 <= e < tasks@[head as int].dependencies@.len() && place_of(
                            tasks@,
                            #[trigger] tasks@[head as int].dependencies@[e],
                            0,
                        ) == Some(m);
                    assert(deps@[e] == tasks@[head as int].dependencies@[e]);
                }
            }
        }
        k = k + 1;
    }
    proof {
        let all = marked@;
        assert(is_closed(tasks@, all)) by {
            assert forall|q: int, m: int|
                0 <= q < tasks@.len() && all[q] && #[trigger] depends(tasks@, q, m) implies 0 <= m
                < tasks@.len() && all[m] by {
                assert(queue@.skip(1).contains(q as usize));
                let j = choose|j: int|
                    0 <= j < queue@.skip(1).len() && queue@.skip(1)[j] == q as usize;
                assert(queue@[j + 1] == q as usize);
                assert(depends(tasks@, queue@[j + 1] as int, m));
            }
        }
        assert forall|q: int| 0 <= q < tasks@.len() implies #[trigger] all[q] == is_ancestor(
            tasks@,
            p as int,
            q,
        ) by {
            if is_ancestor(tasks@, p as int, q) {
                let n = choose|n: nat| n > 0 && #[trigger] leads(tasks@, p as int, q, n);
                let m = choose|m: int| #[trigger]
                    depends(tasks@, p as int, m) && leads(tasks@, m, q, (n - 1) as nat);
                assert(queue@[0] == p);
                assert(depends(tasks@, queue@[0] as int, m));
                lemma_closed(tasks@, all, m, q, (n - 1) as nat);
            }
        }
    }
    marked
}

/// A task with prior work behind it, in its plan.
#[derive(Debug)]
pub struct FrameGraph {
    plan: Plan,
    task_id: usize,
}

impl FrameGraph {
    #[verifier::type_invariant]
    spec fn has_a_frame(self) -> bool {
        has_prior_work(self.plan.tasks@, self.task_id)
    }

    /// The plan.
    pub closed spec fn whole(self) -> Plan {
        self.plan
    }

    /// The id of the task.
    pub closed spec fn target(self) -> usize {
        self.task_id
    }

    /// A task of a plan, where an ancestor of it was completed.
    pub fn new(plan: Plan, task_id: usize) -> (r: Result<FrameGraph, FixtureError>)
        ensures
            match r {
                Ok(graph) => has_prior_work(plan.tasks@, task_id) && graph.whole() == plan
                    && graph.target() == task_id,
                Err(e) => !has_prior_work(plan.tasks@, task_id) && e
                    == (FixtureError::FrameHasNoCompletedAncestor { task_id }),
            },
    {
        let p: usize = match find_place(&plan.tasks, task_id) {
            Some(p) => p,
            None => {
                return Err(FixtureError::FrameHasNoCompletedAncestor { task_id });
            },
        };
        let marked = mark_ancestors(&plan.tasks, p);
        let ghost tasks = plan.tasks@;
        for q in 0..marked.len()
            invariant
                tasks == plan.tasks@,
                place_of(tasks, task_id, 0) == Some(p as int),
                marked.len() == tasks.len(),
                forall|j: int|
                    0 <= j < tasks.len() ==> #[trigger] marked@[j] == is_ancestor(
                        tasks,
                        p as int,
                        j,
                    ),
                forall|j: int|
                    0 <= j < q && #[trigger] is_ancestor(tasks, p as int, j) ==> !(
                    tasks[j].state is Complete),
        {
            let complete = match &plan.tasks[q].state {
                TaskState::Complete { .. } => true,
                _ => false,
            };
            assert(marked@[q as int] == is_ancestor(tasks, p as int, q as int));
            if marked[q] && complete {
                assert(tasks[q as int].state is Complete);
                assert(has_completed_ancestor(tasks, p as int));
                return Ok(FrameGraph { plan, task_id });
            }
        }
        Err(FixtureError::FrameHasNoCompletedAncestor { task_id })
    }

    /// The plan.
    pub fn plan(&self) -> (r: &Plan)
        ensures
            *r == self.whole(),
    {
        &self.plan
    }

    /// The id of the task.
    pub fn task_id(&self) -> (r: usize)
        ensures
            r == self.target(),
    {
        self.task_id
    }

    /// The description of the task.
    pub fn task_text(&self) -> (r: &str)
        ensures
            place_of(self.whole().tasks@, self.target(), 0) matches Some(p) && r@
                == self.whole().tasks@[p].description@,
    {
        proof {
            use_type_invariant(self);
        }
        match find_place(&self.plan.tasks, self.task_id) {
            Some(p) => &self.plan.tasks[p].description,
            None => "",
        }
    }
}

} // verus!
