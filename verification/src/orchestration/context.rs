//! Typed context frames: the pinned goal, evidence-framed task entries,
//! coordinator decision turns, failure history and the prior-work frame.
//!
//! Raw text and numbers enter through constructors that return a
//! [`ContextError`] or a valid value; no value of these types is ever invalid.
//! A coordinator's task description has no field in any of them but the
//! truncated [`FailureHandle`].
use vstd::prelude::*;

pub mod budget_laws;
pub mod entry_laws;
pub mod error;
pub mod evidence;
pub mod failure_history;
pub mod frame;
pub mod frame_laws;
pub mod goal;
pub mod label;
pub mod named_check;
pub mod rendered;
pub mod status_laws;
pub mod turn;
pub mod turn_laws;

pub use error::ContextError;
pub use evidence::{
    ArtifactRef, ArtifactStandIn, BlockedEntry, CompletedEntry, ErrorPreview, EvidenceEntry,
    EvidenceText, FailedEntry, FailureReport, ResultPreview, SpilledArtifact,
};
pub use failure_history::{FailureHandle, FailureRecord};
pub use frame::{
    AncestorDistance, DependencyRelation, PriorWorkEntry, PriorWorkFrame, TokenBudget,
};
pub use goal::PinnedGoal;
pub use label::{CorrelationLabel, IterationNumber, TaskId, WorkerClaim, WorkerRole};
pub use named_check::{CheckIdentity, CheckOutcome, CheckResult, NamedCheck};
pub use rendered::RenderedContext;
pub use turn::{
    ClarificationQuestion, CoordinatorTurn, FinalResponse, PlanShape, RoutingRationale,
};

verus! {

} // verus!
