//! What a worker's request is made from.
use super::frame_graph::{place_of, FrameGraph};
use crate::orchestration::config::{
    build_vector_store_context, vector_store_context, VectorStoreConfig, NO_CUSTOM_INSTRUCTIONS,
};
use crate::orchestration::templates::{render_worker_preamble, worker_filled, WorkerPreambleVars};
use vstd::prelude::*;

verus! {

/// Whether the worker has a scratchpad. Its tools and what it is told both
/// come from this.
#[derive(Debug, Clone, Copy, PartialEq, Eq, Structural)]
pub enum ScratchpadWiring {
    Wired,
    NotWired,
}

/// What a worker with a scratchpad is told of it.
pub const SCRATCHPAD_PREAMBLE: &'static str = "\n\n## Scratchpad\n\nLarge tool outputs are kept in a scratchpad. Read from it what you need instead of asking for the output again.\n";

/// What is appended for every worker: the scratchpad, then the skills.
#[derive(Debug)]
pub struct WorkerPreambleAppends {
    pub scratchpad: ScratchpadWiring,
    /// The catalog of skills, where there is one.
    pub skill_catalog: Option<String>,
}

/// Which preamble a worker has.
#[derive(Debug)]
#[allow(inconsistent_fields)]
pub enum WorkerPreambleFixture {
    /// That of a configured role, with the knowledge bases of the role.
    Role {
        role_preamble: String,
        vector_stores: Vec<VectorStoreConfig>,
        appends: WorkerPreambleAppends,
    },
    /// That of a worker without a role; it has no knowledge bases.
    Generic { custom_prompt: Option<String>, appends: WorkerPreambleAppends },
}

/// What is appended for every worker.
pub open spec fn appended(appends: WorkerPreambleAppends) -> Seq<char> {
    let scratchpad = match appends.scratchpad {
        ScratchpadWiring::Wired => SCRATCHPAD_PREAMBLE@,
        ScratchpadWiring::NotWired => Seq::empty(),
    };
    let skills = match appends.skill_catalog {
        Some(catalog) => catalog@,
        None => Seq::empty(),
    };
    scratchpad + skills
}

/// A worker's preamble with all that is appended to it.
pub open spec fn worker_preamble(fixture: WorkerPreambleFixture) -> Seq<char> {
    match fixture {
        WorkerPreambleFixture::Role { role_preamble, vector_stores, appends } => {
            worker_filled(role_preamble@) + vector_store_context(vector_stores@) + appended(appends)
        },
        WorkerPreambleFixture::Generic { custom_prompt, appends } => {
            worker_filled(
                match custom_prompt {
                    Some(prompt) => prompt@,
                    None => NO_CUSTOM_INSTRUCTIONS@,
                },
            ) + appended(appends)
        },
    }
}

fn append_shared_worker_sections(preamble: &mut String, appends: &WorkerPreambleAppends)
    ensures
        final(preamble)@ == old(preamble)@ + appended(*appends),
{
    let ghost before = preamble@;
    match appends.scratchpad {
        ScratchpadWiring::Wired => preamble.append(SCRATCHPAD_PREAMBLE),
        ScratchpadWiring::NotWired => (),
    }
    match &appends.skill_catalog {
        Some(catalog) => preamble.append(catalog),
        None => (),
    }
    assert(preamble@ =~= before + appended(*appends));
}

/// A worker's preamble: that of its role with its knowledge bases, or the
/// generic one; then the scratchpad; then the skills.
pub fn compose_worker_preamble(fixture: &WorkerPreambleFixture) -> (r: String)
    ensures
        r@ == worker_preamble(*fixture),
{
    match fixture {
        WorkerPreambleFixture::Role { role_preamble, vector_stores, appends } => {
            let mut preamble = render_worker_preamble(
                &WorkerPreambleVars { worker_system_prompt: role_preamble },
            );
            preamble.append(&build_vector_store_context(vector_stores));
            append_shared_worker_sections(&mut preamble, appends);
            preamble
        },
        WorkerPreambleFixture::Generic { custom_prompt, appends } => {
            let prompt = match custom_prompt {
                Some(prompt) => prompt.as_str(),
                None => NO_CUSTOM_INSTRUCTIONS,
            };
            let mut preamble = render_worker_preamble(
                &WorkerPreambleVars { worker_system_prompt: prompt },
            );
            append_shared_worker_sections(&mut preamble, appends);
            preamble
        },
    }
}

/// The prior work that a worker is shown.
#[derive(Debug)]
#[allow(inconsistent_fields)]
pub enum WorkerFrameFixture {
    /// None yet: the first task of a fresh plan.
    EmptyFirstTurn { task: String },
    /// None in this plan: the first task after planning anew.
    EmptyReplanBoundary { task: String },
    /// That of the tasks that the task depends on.
    Populated(FrameGraph),
}

impl WorkerFrameFixture {
    /// The text of the task.
    pub open spec fn asked(self) -> Seq<char> {
        match self {
            WorkerFrameFixture::EmptyFirstTurn { task } => task@,
            WorkerFrameFixture::EmptyReplanBoundary { task } => task@,
            WorkerFrameFixture::Populated(graph) => match place_of(
                graph.whole().tasks@,
                graph.target(),
                0,
            ) {
                Some(p) => graph.whole().tasks@[p].description@,
                None => Seq::empty(),
            },
        }
    }

    /// The text of the task: on a populated frame, that of the plan's own
    /// task.
    pub fn task_text(&self) -> (r: &str)
        ensures
            r@ == self.asked(),
    {
        match self {
            WorkerFrameFixture::EmptyFirstTurn { task } => task,
            WorkerFrameFixture::EmptyReplanBoundary { task } => task,
            WorkerFrameFixture::Populated(graph) => graph.task_text(),
        }
    }
}

/// A worker's call with everything it is made from. It carries no
/// conversation.
#[derive(Debug)]
pub struct WorkerScenario {
    pub preamble: WorkerPreambleFixture,
    pub frame: WorkerFrameFixture,
}

} // verus!
