//! The named check: the verification a task's success depends on, with what
//! the worker's result carried for it.
use super::error::ContextError;
use crate::orchestration::bounding::{NamedCheckWidth, NAMED_CHECK_CHARS};
use crate::text::{blank, is_blank};
use vstd::prelude::*;

verus! {

/// Text that may stand in the decisive check line: not blank, and within the
/// bound.
pub open spec fn fits_check_line(s: Seq<char>) -> bool {
    !is_blank(s) && s.len() <= NAMED_CHECK_CHARS
}

/// The identity of a check: what is checked, and the criterion it must meet.
#[derive(Debug, PartialEq, Eq)]
pub struct CheckIdentity {
    text: String,
}

impl View for CheckIdentity {
    type V = Seq<char>;

    closed spec fn view(&self) -> Seq<char> {
        self.text@
    }
}

impl Clone for CheckIdentity {
    fn clone(&self) -> (r: Self)
        ensures
            r == *self,
    {
        proof {
            use_type_invariant(self);
        }
        CheckIdentity { text: self.text.clone() }
    }
}

impl CheckIdentity {
    #[verifier::type_invariant]
    spec fn valid(self) -> bool {
        fits_check_line(self.text@)
    }

    /// Accept a check identity that is neither blank nor over the bound.
    pub fn new(raw: &str) -> (r: Result<Self, ContextError>)
        ensures
            match r {
                Ok(v) => fits_check_line(raw@) && v@ == raw@,
                Err(e) => {
                    ||| is_blank(raw@) && e == ContextError::EmptyCheckIdentity
                    ||| !is_blank(raw@) && raw@.len() > NAMED_CHECK_CHARS && e
                        == ContextError::CheckIdentityTooLong
                },
            },
    {
        if blank(raw) {
            return Err(ContextError::EmptyCheckIdentity);
        }
        if !NamedCheckWidth::default_width().fits(raw) {
            return Err(ContextError::CheckIdentityTooLong);
        }
        Ok(CheckIdentity { text: raw.to_owned() })
    }

    /// Accept stored text under the same rule as [`Self::new`].
    pub fn try_from(raw: String) -> (r: Result<Self, ContextError>)
        ensures
            match r {
                Ok(v) => fits_check_line(raw@) && v@ == raw@,
                Err(e) => {
                    ||| is_blank(raw@) && e == ContextError::EmptyCheckIdentity
                    ||| !is_blank(raw@) && raw@.len() > NAMED_CHECK_CHARS && e
                        == ContextError::CheckIdentityTooLong
                },
            },
    {
        Self::new(raw.as_str())
    }

    /// The text.
    pub fn as_str(&self) -> (r: &str)
        ensures
            r@ == self@,
            fits_check_line(r@),
    {
        proof {
            use_type_invariant(self);
        }
        self.text.as_str()
    }
}

/// The decisive result of a check: a count, a delta, an exit line; bulk output
/// goes to the spilled artifact.
#[derive(Debug, PartialEq, Eq)]
pub struct CheckResult {
    text: String,
}

impl View for CheckResult {
    type V = Seq<char>;

    closed spec fn view(&self) -> Seq<char> {
        self.text@
    }
}

impl Clone for CheckResult {
    fn clone(&self) -> (r: Self)
        ensures
            r == *self,
    {
        proof {
            use_type_invariant(self);
        }
        CheckResult { text: self.text.clone() }
    }
}

impl CheckResult {
    #[verifier::type_invariant]
    spec fn valid(self) -> bool {
        fits_check_line(self.text@)
    }

    /// Accept a check result that is neither blank nor over the bound.
    pub fn new(raw: &str) -> (r: Result<Self, ContextError>)
        ensures
            match r {
                Ok(v) => fits_check_line(raw@) && v@ == raw@,
                Err(e) => {
                    ||| is_blank(raw@) && e == ContextError::EmptyCheckResult
                    ||| !is_blank(raw@) && raw@.len() > NAMED_CHECK_CHARS && e
                        == ContextError::CheckResultTooLong
                },
            },
    {
        if blank(raw) {
            return Err(ContextError::EmptyCheckResult);
        }
        if !NamedCheckWidth::default_width().fits(raw) {
            return Err(ContextError::CheckResultTooLong);
        }
        Ok(CheckResult { text: raw.to_owned() })
    }

    /// Accept stored text under the same rule as [`Self::new`].
    pub fn try_from(raw: String) -> (r: Result<Self, ContextError>)
        ensures
            match r {
                Ok(v) => fits_check_line(raw@) && v@ == raw@,
                Err(e) => {
                    ||| is_blank(raw@) && e == ContextError::EmptyCheckResult
                    ||| !is_blank(raw@) && raw@.len() > NAMED_CHECK_CHARS && e
                        == ContextError::CheckResultTooLong
                },
            },
    {
        Self::new(raw.as_str())
    }

    /// The text.
    pub fn as_str(&self) -> (r: &str)
        ensures
            r@ == self@,
            fits_check_line(r@),
    {
        proof {
            use_type_invariant(self);
        }
        self.text.as_str()
    }
}

/// What became of a named check. A check that was not run is a variant of its
/// own, never a blank result.
#[derive(Debug, PartialEq, Eq)]
pub enum CheckOutcome {
    /// The check was performed, with this result.
    Performed(CheckResult),
    /// The check was named and not performed.
    NotRun,
}

impl CheckOutcome {
    /// The result's text, where the check was performed.
    pub open spec fn result_text(self) -> Option<Seq<char>> {
        match self {
            CheckOutcome::Performed(result) => Some(result@),
            CheckOutcome::NotRun => None,
        }
    }
}

impl Clone for CheckOutcome {
    fn clone(&self) -> (r: Self)
        ensures
            r == *self,
    {
        match self {
            CheckOutcome::Performed(result) => CheckOutcome::Performed(result.clone()),
            CheckOutcome::NotRun => CheckOutcome::NotRun,
        }
    }
}

/// A check's identity with its outcome: a result never travels without the
/// check it belongs to.
#[derive(Debug, PartialEq, Eq)]
pub struct NamedCheck {
    identity: CheckIdentity,
    outcome: CheckOutcome,
}

impl Clone for NamedCheck {
    fn clone(&self) -> (r: Self)
        ensures
            r == *self,
    {
        NamedCheck { identity: self.identity.clone(), outcome: self.outcome.clone() }
    }
}

/// The line of a check: its identity, and its result or that it was not run.
pub open spec fn check_line(identity: Seq<char>, result: Option<Seq<char>>) -> Seq<char> {
    "[Check: "@ + identity + " -> "@ + (match result {
        Some(text) => text,
        None => "NOT RUN"@,
    }) + "]"@
}

impl NamedCheck {
    /// The text of the check's identity.
    pub closed spec fn identity_text(self) -> Seq<char> {
        self.identity@
    }

    /// The text of the check's result, where it was performed.
    pub closed spec fn result_text(self) -> Option<Seq<char>> {
        self.outcome.result_text()
    }

    /// Read a check as a worker submitted it; no result means that the worker
    /// named the check and did not run it. The identity is looked at first.
    pub fn parse(check: &str, result: Option<&str>) -> (r: Result<Self, ContextError>)
        ensures
            match r {
                Ok(v) => {
                    &&& fits_check_line(check@)
                    &&& v.identity_text() == check@
                    &&& match result {
                        Some(text) => fits_check_line(text@) && v.result_text() == Some(text@),
                        None => v.result_text() is None,
                    }
                },
                Err(e) => {
                    ||| is_blank(check@) && e == ContextError::EmptyCheckIdentity
                    ||| !is_blank(check@) && check@.len() > NAMED_CHECK_CHARS && e
                        == ContextError::CheckIdentityTooLong
                    ||| fits_check_line(check@) && result is Some && is_blank(result->0@) && e
                        == ContextError::EmptyCheckResult
                    ||| fits_check_line(check@) && result is Some && !is_blank(result->0@)
                        && result->0@.len() > NAMED_CHECK_CHARS && e
                        == ContextError::CheckResultTooLong
                },
            },
    {
        let identity = match CheckIdentity::new(check) {
            Ok(identity) => identity,
            Err(e) => {
                return Err(e);
            },
        };
        let outcome = match result {
            Some(text) => match CheckResult::new(text) {
                Ok(result) => CheckOutcome::Performed(result),
                Err(e) => {
                    return Err(e);
                },
            },
            None => CheckOutcome::NotRun,
        };
        Ok(NamedCheck { identity, outcome })
    }

    /// A declared check that the worker's result did not carry.
    pub fn not_run(check: &str) -> (r: Result<Self, ContextError>)
        ensures
            match r {
                Ok(v) => fits_check_line(check@) && v.identity_text() == check@
                    && v.result_text() is None,
                Err(e) => {
                    ||| is_blank(check@) && e == ContextError::EmptyCheckIdentity
                    ||| !is_blank(check@) && check@.len() > NAMED_CHECK_CHARS && e
                        == ContextError::CheckIdentityTooLong
                },
            },
    {
        match CheckIdentity::new(check) {
            Ok(identity) => Ok(NamedCheck { identity, outcome: CheckOutcome::NotRun }),
            Err(e) => Err(e),
        }
    }

    /// The check's identity.
    pub fn identity(&self) -> (r: &CheckIdentity)
        ensures
            r@ == self.identity_text(),
    {
        &self.identity
    }

    /// The check's outcome.
    pub fn outcome(&self) -> (r: &CheckOutcome)
        ensures
            r.result_text() == self.result_text(),
    {
        &self.outcome
    }

    /// The decisive check line: `[Check: {identity} -> {result}]`, with
    /// `NOT RUN` in place of a result where there is none.
    #[must_use]
    pub fn render_line(&self) -> (r: String)
        ensures
            r@ == check_line(self.identity_text(), self.result_text()),
    {
        let mut line = "[Check: ".to_owned();
        line.append(self.identity.as_str());
        line.append(" -> ");
        match &self.outcome {
            CheckOutcome::Performed(result) => {
                line.append(result.as_str());
            },
            CheckOutcome::NotRun => {
                line.append("NOT RUN");
            },
        }
        line.append("]");
        line
    }
}

} // verus!
