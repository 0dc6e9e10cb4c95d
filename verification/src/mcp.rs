//! Tool servers: connecting, calling, and reading what comes back.
use vstd::prelude::*;

pub mod call_laws;
pub mod client;
pub mod connections;
pub mod conversion;
pub mod execution;
pub mod glob;
pub mod headers;
pub mod http_client;
pub mod manager;
pub mod progress;
pub mod response;
pub mod response_laws;
pub mod schema_laws;
pub mod schema_sanitize;
pub mod sse;
pub mod tool_lookup;
pub mod tool_lookup_laws;
pub mod tool_names;
pub mod tools;
pub mod transport_laws;
pub mod types;

verus! {

} // verus!
