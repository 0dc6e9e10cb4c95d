//! Requests to the model as they are compared with recorded ones.
//!
//! - [`scenario`] holds what a planning request is made from, [`worker`] and
//!   [`frame_graph`] what a worker's request is made from.
//! - [`envelope`] holds what goes out with one request, and [`requests`] makes
//!   it.
//! - [`normalize`] writes a request as a document that does not depend on the
//!   clock or on the order of a map.
use vstd::prelude::*;

pub mod envelope;
pub mod frame_graph;
pub mod normalize;
pub mod normalize_laws;
pub mod request_laws;
pub mod requests;
pub mod scenario;
pub mod scenario_laws;
pub mod worker;

verus! {

} // verus!
