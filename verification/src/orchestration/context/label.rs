//! Correlation labels: task identity, worker role and worker claim.
//!
//! An entry about a task identifies it by its id and its worker's role, never
//! by the text of the task.
use super::error::ContextError;
use super::named_check::NamedCheck;
use crate::orchestration::types::{Confidence, StructuredTaskOutput, SubmittedCheck};
use crate::text::numerals::{numeral, usize_text};
use crate::text::{blank, is_blank};
use vstd::prelude::*;

verus! {

/// The identity of a task within its plan.
#[derive(Debug, Clone, Copy, PartialEq, Eq, Hash, PartialOrd, Ord)]
pub struct TaskId {
    id: usize,
}

impl View for TaskId {
    type V = usize;

    closed spec fn view(&self) -> usize {
        self.id
    }
}

impl TaskId {
    /// Wrap an id that a plan assigned.
    pub fn new(id: usize) -> (r: Self)
        ensures
            r@ == id,
    {
        TaskId { id }
    }

    /// The id as a numeral.
    pub fn to_string(&self) -> (r: String)
        ensures
            r@ == numeral(self@ as nat),
    {
        usize_text(self.id)
    }
}

/// A configured worker's role name: it says who produced the evidence.
#[derive(Debug, PartialEq, Eq)]
pub struct WorkerRole {
    text: String,
}

impl View for WorkerRole {
    type V = Seq<char>;

    closed spec fn view(&self) -> Seq<char> {
        self.text@
    }
}

impl Clone for WorkerRole {
    fn clone(&self) -> (r: Self)
        ensures
            r == *self,
    {
        proof {
            use_type_invariant(self);
        }
        WorkerRole { text: self.text.clone() }
    }
}

impl WorkerRole {
    #[verifier::type_invariant]
    spec fn valid(self) -> bool {
        !is_blank(self.text@)
    }

    /// Accept a role name that is not blank, exactly as it is.
    pub fn new(text: &str) -> (r: Result<Self, ContextError>)
        ensures
            match r {
                Ok(v) => !is_blank(text@) && v@ == text@,
                Err(e) => is_blank(text@) && e == ContextError::EmptyWorkerRole,
            },
    {
        if blank(text) {
            return Err(ContextError::EmptyWorkerRole);
        }
        Ok(WorkerRole { text: text.to_owned() })
    }

    /// The text.
    pub fn as_str(&self) -> (r: &str)
        ensures
            r@ == self@,
            !is_blank(r@),
    {
        proof {
            use_type_invariant(self);
        }
        self.text.as_str()
    }
}

/// The text of an optional role.
pub open spec fn role_text(worker: Option<WorkerRole>) -> Option<Seq<char>> {
    match worker {
        Some(role) => Some(role@),
        None => None,
    }
}

/// The label of one task's entry: task id and worker role. It has no field for
/// the task's description.
#[derive(Debug, PartialEq, Eq)]
pub struct CorrelationLabel {
    /// The task that the entry is about.
    pub task: TaskId,
    /// The worker that the task went to, where the plan assigned one.
    pub worker: Option<WorkerRole>,
}

impl Clone for CorrelationLabel {
    fn clone(&self) -> (r: Self)
        ensures
            r == *self,
    {
        CorrelationLabel {
            task: self.task,
            worker: match &self.worker {
                Some(role) => Some(role.clone()),
                None => None,
            },
        }
    }
}

/// The number of an orchestration iteration, counted from one.
#[derive(Debug, Clone, Copy, PartialEq, Eq, Hash, PartialOrd, Ord)]
pub struct IterationNumber {
    number: usize,
}

impl View for IterationNumber {
    type V = usize;

    closed spec fn view(&self) -> usize {
        self.number
    }
}

impl IterationNumber {
    /// Accept any number but zero.
    pub fn new(iteration: usize) -> (r: Result<Self, ContextError>)
        ensures
            match r {
                Ok(v) => iteration > 0 && v@ == iteration,
                Err(e) => iteration == 0 && e == ContextError::ZeroIterationNumber,
            },
    {
        if iteration == 0 {
            return Err(ContextError::ZeroIterationNumber);
        }
        Ok(IterationNumber { number: iteration })
    }

    /// The number as a numeral.
    pub fn to_string(&self) -> (r: String)
        ensures
            r@ == numeral(self@ as nat),
    {
        usize_text(self.number)
    }
}

/// A worker's own claim about its result: a distilled summary and the stated
/// confidence, which always travel together, and the decisive check where
/// the task named one.
#[derive(Debug, PartialEq, Eq)]
pub struct WorkerClaim {
    summary: String,
    confidence: Confidence,
    named_check: Option<NamedCheck>,
}

impl Clone for WorkerClaim {
    fn clone(&self) -> (r: Self)
        ensures
            r == *self,
    {
        proof {
            use_type_invariant(self);
        }
        WorkerClaim {
            summary: self.summary.clone(),
            confidence: self.confidence,
            named_check: match &self.named_check {
                Some(check) => Some(check.clone()),
                None => None,
            },
        }
    }
}

impl WorkerClaim {
    #[verifier::type_invariant]
    spec fn valid(self) -> bool {
        !is_blank(self.summary@)
    }

    /// The text of the summary.
    pub closed spec fn summary_text(self) -> Seq<char> {
        self.summary@
    }

    /// The stated confidence.
    pub closed spec fn stated_confidence(self) -> Confidence {
        self.confidence
    }

    /// The check that rides on the claim.
    pub closed spec fn carried_check(self) -> Option<NamedCheck> {
        self.named_check
    }

    /// Accept a claim whose summary is not blank; it carries no check.
    pub fn new(summary: &str, confidence: Confidence) -> (r: Result<Self, ContextError>)
        ensures
            match r {
                Ok(v) => {
                    &&& !is_blank(summary@)
                    &&& v.summary_text() == summary@
                    &&& v.stated_confidence() == confidence
                    &&& v.carried_check() is None
                },
                Err(e) => is_blank(summary@) && e == ContextError::EmptyWorkerClaimSummary,
            },
    {
        if blank(summary) {
            return Err(ContextError::EmptyWorkerClaimSummary);
        }
        Ok(WorkerClaim { summary: summary.to_owned(), confidence, named_check: None })
    }

    /// Attach the task's decisive check; it replaces one that was there.
    #[must_use]
    pub fn with_named_check(self, named_check: NamedCheck) -> (r: Self)
        ensures
            r.summary_text() == self.summary_text(),
            r.stated_confidence() == self.stated_confidence(),
            r.carried_check() == Some(named_check),
    {
        proof {
            use_type_invariant(&self);
        }
        WorkerClaim {
            summary: self.summary,
            confidence: self.confidence,
            named_check: Some(named_check),
        }
    }

    /// The worker's summary of its own result.
    pub fn summary(&self) -> (r: &str)
        ensures
            r@ == self.summary_text(),
            !is_blank(r@),
    {
        proof {
            use_type_invariant(self);
        }
        self.summary.as_str()
    }

    /// The worker's stated confidence.
    pub fn confidence(&self) -> (r: Confidence)
        ensures
            r == self.stated_confidence(),
    {
        self.confidence
    }

    /// The check that rides on the claim.
    pub fn named_check(&self) -> (r: Option<&NamedCheck>)
        ensures
            match r {
                Some(check) => self.carried_check() == Some(*check),
                None => self.carried_check() is None,
            },
    {
        match &self.named_check {
            Some(check) => Some(check),
            None => None,
        }
    }

    /// Read a claim from what a worker submitted. A check that the worker
    /// carried rides on the claim; an absent or unrepresentable one does not.
    pub fn try_from(output: &StructuredTaskOutput) -> (r: Result<Self, ContextError>)
        ensures
            match r {
                Ok(v) => {
                    &&& !is_blank(output.summary@)
                    &&& v.summary_text() == output.summary@
                    &&& v.stated_confidence() == output.confidence
                    &&& v.carried_check() == (match output.named_check {
                        SubmittedCheck::Present(check) => Some(check),
                        _ => None,
                    })
                },
                Err(e) => is_blank(output.summary@) && e == ContextError::EmptyWorkerClaimSummary,
            },
    {
        let claim = match Self::new(output.summary.as_str(), output.confidence) {
            Ok(claim) => claim,
            Err(e) => {
                return Err(e);
            },
        };
        match &output.named_check {
            SubmittedCheck::Present(check) => Ok(claim.with_named_check(check.clone())),
            SubmittedCheck::Absent => Ok(claim),
            SubmittedCheck::UnrepresentableIdentity => Ok(claim),
        }
    }
}

} // verus!
