//! The names of the span attributes that are set and translated.
use vstd::prelude::*;

verus! {

/// The model provider.
pub const ATTR_LLM_SYSTEM: &'static str = "llm.system";

/// The model.
pub const ATTR_LLM_MODEL_NAME: &'static str = "llm.model_name";

/// The tokens of the prompt.
pub const ATTR_LLM_TOKEN_PROMPT: &'static str = "llm.token_count.prompt";

/// The tokens of the completion.
pub const ATTR_LLM_TOKEN_COMPLETION: &'static str = "llm.token_count.completion";

/// The tool.
pub const ATTR_TOOL_NAME: &'static str = "tool.name";

/// The tool's arguments.
pub const ATTR_TOOL_PARAMETERS: &'static str = "tool.parameters";

/// What went in.
pub const ATTR_INPUT_VALUE: &'static str = "input.value";

/// What came out.
pub const ATTR_OUTPUT_VALUE: &'static str = "output.value";

} // verus!
