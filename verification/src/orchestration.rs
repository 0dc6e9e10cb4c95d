//! What coordinator and workers hand to each other, and the rules it obeys.
use vstd::prelude::*;

pub mod bounding;
pub mod canonical_laws;
pub mod config;
pub mod context;
pub mod context_fixture;
pub mod duplicate_call_guard;
pub mod duplicate_call_laws;
pub mod events;
pub mod plan;
pub mod plan_laws;
pub mod prompt_laws;
pub mod templates;
pub mod types;

verus! {

} // verus!
