//! Orchestration context, tool plumbing and telemetry rules of an agent
//! runtime, with their behaviour stated in contracts and proved.
//!
//! - [`text`] holds the string operations everything else is built from.
//! - [`json`] holds documents and the order of their keys.
//! - [`mcp`] knows the tool servers: how they are reached, what they offer,
//!   what is sent to them, and what is made of what they answer.
//! - [`orchestration`] bounds, frames and records what coordinator and workers
//!   tell each other.
//! - [`openinference_exporter`] puts spans under the names of the OpenInference
//!   conventions, and [`openinference_laws`] states what that keeps.
//! - [`model_limits`] knows how much a model takes in.
//! - [`logging`] names the attributes of spans.
#![allow(unused_imports)]

pub mod json;
pub mod logging;
pub mod mcp;
pub mod model_limits;
pub mod openinference_exporter;
pub mod openinference_laws;
pub mod orchestration;
pub mod text;
