//! Compact coordinator decision turns.
//!
//! After a routing decision one assistant turn is recorded. No field of it can
//! hold the text of a task.
use super::error::ContextError;
use super::label::{role_text, WorkerRole};
use super::rendered::RenderedContext;
use crate::orchestration::types::{PlanningResponse, StepInput};
use crate::text::numerals::{numeral, usize_text};
use crate::text::trim::{join, joined, views};
use crate::text::{blank, is_blank};
use vstd::prelude::*;

verus! {

/// The coordinator's stated reason for a routing choice.
#[derive(Debug, PartialEq, Eq)]
pub struct RoutingRationale {
    text: String,
}

impl View for RoutingRationale {
    type V = Seq<char>;

    closed spec fn view(&self) -> Seq<char> {
        self.text@
    }
}

impl Clone for RoutingRationale {
    fn clone(&self) -> (r: Self)
        ensures
            r == *self,
    {
        proof {
            use_type_invariant(self);
        }
        RoutingRationale { text: self.text.clone() }
    }
}

impl RoutingRationale {
    #[verifier::type_invariant]
    spec fn valid(self) -> bool {
        !is_blank(self.text@)
    }

    /// Accept a rationale that is not blank, exactly as it is.
    pub fn new(text: &str) -> (r: Result<Self, ContextError>)
        ensures
            match r {
                Ok(v) => !is_blank(text@) && v@ == text@,
                Err(e) => is_blank(text@) && e == ContextError::EmptyRoutingRationale,
            },
    {
        if blank(text) {
            return Err(ContextError::EmptyRoutingRationale);
        }
        Ok(RoutingRationale { text: text.to_owned() })
    }

    /// The text.
    pub fn as_str(&self) -> (r: &str)
        ensures
            r@ == self@,
            !is_blank(r@),
    {
        proof {
            use_type_invariant(self);
        }
        self.text.as_str()
    }
}

/// The text that the model answered with.
#[derive(Debug, PartialEq, Eq)]
pub struct FinalResponse {
    text: String,
}

impl View for FinalResponse {
    type V = Seq<char>;

    closed spec fn view(&self) -> Seq<char> {
        self.text@
    }
}

impl Clone for FinalResponse {
    fn clone(&self) -> (r: Self)
        ensures
            r == *self,
    {
        proof {
            use_type_invariant(self);
        }
        FinalResponse { text: self.text.clone() }
    }
}

impl FinalResponse {
    #[verifier::type_invariant]
    spec fn valid(self) -> bool {
        !is_blank(self.text@)
    }

    /// Accept a response that is not blank, exactly as it is.
    pub fn new(text: &str) -> (r: Result<Self, ContextError>)
        ensures
            match r {
                Ok(v) => !is_blank(text@) && v@ == text@,
                Err(e) => is_blank(text@) && e == ContextError::EmptyFinalResponse,
            },
    {
        if blank(text) {
            return Err(ContextError::EmptyFinalResponse);
        }
        Ok(FinalResponse { text: text.to_owned() })
    }

    /// The text.
    pub fn as_str(&self) -> (r: &str)
        ensures
            r@ == self@,
            !is_blank(r@),
    {
        proof {
            use_type_invariant(self);
        }
        self.text.as_str()
    }
}

/// The question that goes back to the user.
#[derive(Debug, PartialEq, Eq)]
pub struct ClarificationQuestion {
    text: String,
}

impl View for ClarificationQuestion {
    type V = Seq<char>;

    closed spec fn view(&self) -> Seq<char> {
        self.text@
    }
}

impl Clone for ClarificationQuestion {
    fn clone(&self) -> (r: Self)
        ensures
            r == *self,
    {
        proof {
            use_type_invariant(self);
        }
        ClarificationQuestion { text: self.text.clone() }
    }
}

impl ClarificationQuestion {
    #[verifier::type_invariant]
    spec fn valid(self) -> bool {
        !is_blank(self.text@)
    }

    /// Accept a question that is not blank, exactly as it is.
    pub fn new(text: &str) -> (r: Result<Self, ContextError>)
        ensures
            match r {
                Ok(v) => !is_blank(text@) && v@ == text@,
                Err(e) => is_blank(text@) && e == ContextError::EmptyClarificationQuestion,
            },
    {
        if blank(text) {
            return Err(ContextError::EmptyClarificationQuestion);
        }
        Ok(ClarificationQuestion { text: text.to_owned() })
    }

    /// The text.
    pub fn as_str(&self) -> (r: &str)
        ensures
            r@ == self@,
            !is_blank(r@),
    {
        proof {
            use_type_invariant(self);
        }
        self.text.as_str()
    }
}

/// The roles of assignments, as texts.
pub open spec fn assignment_texts(assignments: Seq<Option<WorkerRole>>) -> Seq<Option<Seq<char>>> {
    Seq::new(assignments.len(), |i: int| role_text(assignments[i]))
}

/// The name under which an assignment is listed.
pub open spec fn assignment_name(role: Option<Seq<char>>) -> Seq<char> {
    match role {
        Some(name) => name,
        None => "unassigned"@,
    }
}

/// The names under which assignments are listed.
pub open spec fn assignment_names(roles: Seq<Option<Seq<char>>>) -> Seq<Seq<char>> {
    Seq::new(roles.len(), |i: int| assignment_name(roles[i]))
}

/// The one-line shape of a plan: `1 task (operator)`, or
/// `3 tasks (analyst, unassigned, verifier)`.
pub open spec fn shape_text(roles: Seq<Option<Seq<char>>>) -> Seq<char> {
    numeral(roles.len()) + " "@ + (if roles.len() == 1 {
        "task"@
    } else {
        "tasks"@
    }) + " ("@ + joined(assignment_names(roles), ", "@) + ")"@
}

/// The shape of a plan: each task's worker, in plan order. The number of tasks
/// is the length of the list.
#[derive(Debug, PartialEq, Eq)]
pub struct PlanShape {
    assignments: Vec<Option<WorkerRole>>,
}

impl PlanShape {
    #[verifier::type_invariant]
    spec fn valid(self) -> bool {
        self.assignments@.len() > 0
    }

    /// The assignments, as texts.
    pub closed spec fn roles(self) -> Seq<Option<Seq<char>>> {
        assignment_texts(self.assignments@)
    }

    /// Accept the assignments of at least one task.
    pub fn new(assignments: Vec<Option<WorkerRole>>) -> (r: Result<Self, ContextError>)
        ensures
            match r {
                Ok(v) => assignments@.len() > 0 && v.roles() == assignment_texts(assignments@),
                Err(e) => assignments@.len() == 0 && e == ContextError::EmptyPlanShape,
            },
    {
        if assignments.len() == 0 {
            return Err(ContextError::EmptyPlanShape);
        }
        Ok(PlanShape { assignments })
    }

    /// Each task's worker, in plan order.
    pub fn assignments(&self) -> (r: &[Option<WorkerRole>])
        ensures
            assignment_texts(r@) == self.roles(),
            r@.len() > 0,
    {
        proof {
            use_type_invariant(self);
        }
        self.assignments.as_slice()
    }

    /// The shape on one line.
    pub fn to_string(&self) -> (r: String)
        ensures
            r@ == shape_text(self.roles()),
    {
        let count = self.assignments.len();
        let mut names: Vec<String> = Vec::new();
        let mut i: usize = 0;
        while i < count
            invariant
                count == self.assignments@.len(),
                i <= count,
                views(names@) == assignment_names(self.roles()).take(i as int),
            decreases count - i,
        {
            let name = match &self.assignments[i] {
                Some(role) => role.as_str(),
                None => "unassigned",
            };
            let ghost before = names@;
            names.push(name.to_owned());
            proof {
                assert(self.roles()[i as int] == role_text(self.assignments@[i as int]));
                assert(views(names@) =~= views(before).push(name@));
                assert(assignment_names(self.roles()).take(i + 1) =~= assignment_names(
                    self.roles(),
                ).take(i as int).push(name@));
            }
            i = i + 1;
        }
        assert(assignment_names(self.roles()).take(i as int) =~= assignment_names(self.roles()));
        let mut text = usize_text(count);
        text.append(" ");
        text.append(
            if count == 1 {
                "task"
            } else {
                "tasks"
            },
        );
        text.append(" (");
        text.append(join(&names, ", ").as_str());
        text.append(")");
        text
    }
}

/// The assistant turn that records a routing decision.
#[derive(Debug, PartialEq, Eq)]
pub enum CoordinatorTurn {
    /// A plan was created: why, and of what shape.
    CreatePlan { rationale: RoutingRationale, shape: PlanShape },
    /// The model answered.
    RespondDirectly { response: FinalResponse },
    /// The model asked back.
    RequestClarification { question: ClarificationQuestion },
}

/// The workers of the leaf tasks of a step, in plan order. A blank name is an
/// unassigned task.
pub open spec fn step_workers(step: StepInput) -> Seq<Option<Seq<char>>>
    decreases step,
{
    match step {
        StepInput::LeafTask { task, worker } => seq![
            match worker {
                Some(name) => if is_blank(name@) {
                    None
                } else {
                    Some(name@)
                },
                None => None,
            },
        ],
        StepInput::ParallelGroup { items } => steps_workers(items@, items@.len() as int),
        StepInput::SubChain { steps } => steps_workers(steps@, steps@.len() as int),
    }
}

/// The workers of the leaf tasks of the first `n` steps, in plan order.
pub open spec fn steps_workers(steps: Seq<StepInput>, n: int) -> Seq<Option<Seq<char>>>
    decreases steps, n,
{
    if n <= 0 || n > steps.len() {
        Seq::empty()
    } else {
        steps_workers(steps, n - 1) + step_workers(steps[n - 1])
    }
}

/// Append the workers of one step's leaf tasks.
fn collect_step(step: &StepInput, out: &mut Vec<Option<WorkerRole>>)
    ensures
        assignment_texts(final(out)@) == assignment_texts(old(out)@) + step_workers(*step),
    decreases step,
{
    match step {
        StepInput::LeafTask { worker, .. } => {
            let role = match worker {
                Some(name) => match WorkerRole::new(name.as_str()) {
                    Ok(role) => Some(role),
                    Err(_) => None,
                },
                None => None,
            };
            out.push(role);
            assert(assignment_texts(out@) =~= assignment_texts(old(out)@) + step_workers(*step));
        },
        StepInput::ParallelGroup { items } => {
            collect_steps(items, out);
        },
        StepInput::SubChain { steps } => {
            collect_steps(steps, out);
        },
    }
}

/// Append the workers of the leaf tasks of several steps.
fn collect_steps(steps: &Vec<StepInput>, out: &mut Vec<Option<WorkerRole>>)
    ensures
        assignment_texts(final(out)@) == assignment_texts(old(out)@) + steps_workers(
            steps@,
            steps@.len() as int,
        ),
    decreases steps@,
{
    let mut i: usize = 0;
    assert(assignment_texts(out@) + steps_workers(steps@, 0) =~= assignment_texts(out@));
    while i < steps.len()
        invariant
            i <= steps@.len(),
            assignment_texts(out@) == assignment_texts(old(out)@) + steps_workers(steps@, i as int),
        decreases steps@.len() - i,
    {
        assert(decreases_to!(steps@ => steps@[i as int]));
        collect_step(&steps[i], out);
        assert(assignment_texts(out@) =~= assignment_texts(old(out)@) + steps_workers(
            steps@,
            i + 1,
        ));
        i = i + 1;
    }
}

/// The workers of a plan's leaf tasks, in plan order.
fn leaf_assignments(steps: &Vec<StepInput>) -> (r: Vec<Option<WorkerRole>>)
    ensures
        assignment_texts(r@) == steps_workers(steps@, steps@.len() as int),
{
    let mut out: Vec<Option<WorkerRole>> = Vec::new();
    collect_steps(steps, &mut out);
    assert(assignment_texts(out@) =~= steps_workers(steps@, steps@.len() as int));
    out
}

impl CoordinatorTurn {
    /// The text of the turn.
    pub open spec fn text(self) -> Seq<char> {
        match self {
            CoordinatorTurn::CreatePlan { rationale, shape } => "create_plan: "@ + shape_text(
                shape.roles(),
            ) + ". Rationale: "@ + rationale@,
            CoordinatorTurn::RespondDirectly { response } => response@,
            CoordinatorTurn::RequestClarification { question } => question@,
        }
    }

    /// Render the turn. An answer and a question stand as the model wrote
    /// them.
    pub fn render(&self) -> (r: RenderedContext)
        ensures
            r@ == self.text(),
    {
        let text = match self {
            CoordinatorTurn::CreatePlan { rationale, shape } => {
                let mut s = "create_plan: ".to_owned();
                s.append(shape.to_string().as_str());
                s.append(". Rationale: ");
                s.append(rationale.as_str());
                s
            },
            CoordinatorTurn::RespondDirectly { response } => response.as_str().to_owned(),
            CoordinatorTurn::RequestClarification { question } => question.as_str().to_owned(),
        };
        RenderedContext::new(text)
    }

    /// Record a decision. A plan crosses over as its rationale and its leaf
    /// workers, and the rationale is looked at first; an answer and a question
    /// cross over as they are. Nothing else does.
    pub fn try_from(decision: &PlanningResponse) -> (r: Result<Self, ContextError>)
        ensures
            match *decision {
                PlanningResponse::StepsPlan { goal, steps, routing_rationale, planning_summary } => {
                    let workers = steps_workers(steps@, steps@.len() as int);
                    if is_blank(routing_rationale@) {
                        r == Err::<Self, ContextError>(ContextError::EmptyRoutingRationale)
                    } else if workers.len() == 0 {
                        r == Err::<Self, ContextError>(ContextError::EmptyPlanShape)
                    } else {
                        r matches Ok(CoordinatorTurn::CreatePlan { rationale, shape })
                            && rationale@ == routing_rationale@ && shape.roles() == workers
                    }
                },
                PlanningResponse::Direct { response, routing_rationale, response_summary } => {
                    if is_blank(response@) {
                        r == Err::<Self, ContextError>(ContextError::EmptyFinalResponse)
                    } else {
                        r matches Ok(CoordinatorTurn::RespondDirectly { response: t }) && t@
                            == response@
                    }
                },
                PlanningResponse::Clarification { question, options, routing_rationale } => {
                    if is_blank(question@) {
                        r == Err::<Self, ContextError>(ContextError::EmptyClarificationQuestion)
                    } else {
                        r matches Ok(CoordinatorTurn::RequestClarification { question: t }) && t@
                            == question@
                    }
                },
            },
    {
        match decision {
            PlanningResponse::StepsPlan { steps, routing_rationale, .. } => {
                let rationale = match RoutingRationale::new(routing_rationale.as_str()) {
                    Ok(rationale) => rationale,
                    Err(e) => {
                        return Err(e);
                    },
                };
                let assignments = leaf_assignments(steps);
                assert(assignment_texts(assignments@).len() == assignments@.len());
                match PlanShape::new(assignments) {
                    Ok(shape) => Ok(CoordinatorTurn::CreatePlan { rationale, shape }),
                    Err(e) => Err(e),
                }
            },
            PlanningResponse::Direct { response, .. } => {
                match FinalResponse::new(response.as_str()) {
                    Ok(response) => Ok(CoordinatorTurn::RespondDirectly { response }),
                    Err(e) => Err(e),
                }
            },
            PlanningResponse::Clarification { question, .. } => {
                match ClarificationQuestion::new(question.as_str()) {
                    Ok(question) => Ok(CoordinatorTurn::RequestClarification { question }),
                    Err(e) => Err(e),
                }
            },
        }
    }
}

/// A step with other task texts in it: the same shape and the same workers.
pub open spec fn same_but_for_tasks(a: StepInput, b: StepInput) -> bool
    decreases a,
{
    match (a, b) {
        (StepInput::LeafTask { worker: x, .. }, StepInput::LeafTask { worker: y, .. }) => x == y,
        (StepInput::ParallelGroup { items: x }, StepInput::ParallelGroup { items: y }) => {
            all_same_but_for_tasks(x@, y@, x@.len() as int)
        },
        (StepInput::SubChain { steps: x }, StepInput::SubChain { steps: y }) => {
            all_same_but_for_tasks(x@, y@, x@.len() as int)
        },
        _ => false,
    }
}

/// The first `n` steps differ in the texts of their tasks only.
pub open spec fn all_same_but_for_tasks(a: Seq<StepInput>, b: Seq<StepInput>, n: int) -> bool
    decreases a, n,
{
    if n <= 0 || n > a.len() {
        a.len() == b.len()
    } else {
        all_same_but_for_tasks(a, b, n - 1) && same_but_for_tasks(a[n - 1], b[n - 1])
    }
}

/// The recorded turn of a plan does not depend on the texts of its tasks:
/// plans that differ in those only are recorded alike.
pub proof fn law_turn_drops_task_bodies(a: Seq<StepInput>, b: Seq<StepInput>)
    requires
        all_same_but_for_tasks(a, b, a.len() as int),
    ensures
        steps_workers(a, a.len() as int) == steps_workers(b, b.len() as int),
{
    lemma_workers_without_tasks(a, b, a.len() as int);
    lemma_same_length(a, b, a.len() as int);
}

proof fn lemma_same_length(a: Seq<StepInput>, b: Seq<StepInput>, n: int)
    requires
        0 <= n <= a.len(),
        all_same_but_for_tasks(a, b, n),
    ensures
        a.len() == b.len(),
    decreases n,
{
    if n > 0 {
        lemma_same_length(a, b, n - 1);
    }
}

proof fn lemma_workers_without_tasks(a: Seq<StepInput>, b: Seq<StepInput>, n: int)
    requires
        0 <= n <= a.len(),
        all_same_but_for_tasks(a, b, n),
    ensures
        steps_workers(a, n) == steps_workers(b, n),
    decreases a, n,
{
    reveal_with_fuel(all_same_but_for_tasks, 3);
    reveal_with_fuel(same_but_for_tasks, 3);
    reveal_with_fuel(steps_workers, 3);
    reveal_with_fuel(step_workers, 3);
    lemma_same_length(a, b, n);
    if n > 0 {
        lemma_workers_without_tasks(a, b, n - 1);
        assert(same_but_for_tasks(a[n - 1], b[n - 1]));
        match (a[n - 1], b[n - 1]) {
            (StepInput::ParallelGroup { items: x }, StepInput::ParallelGroup { items: y }) => {
                assert(decreases_to!(a => a[n - 1]));
                lemma_workers_without_tasks(x@, y@, x@.len() as int);
                lemma_same_length(x@, y@, x@.len() as int);
            },
            (StepInput::SubChain { steps: x }, StepInput::SubChain { steps: y }) => {
                assert(decreases_to!(a => a[n - 1]));
                lemma_workers_without_tasks(x@, y@, x@.len() as int);
                lemma_same_length(x@, y@, x@.len() as int);
            },
            _ => {},
        }
        assert(step_workers(a[n - 1]) == step_workers(b[n - 1]));
    }
}

} // verus!
