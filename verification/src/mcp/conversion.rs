//! Tools made fit for models.
use super::manager::McpManager;
use super::schema_sanitize::{
    foreign_type, members_of, refusal, sanitize_schema_for_openai, sanitized,
};
use super::tool_names::{alphanumerics, sanitize_tool_name, sanitized_name};
use super::types::Tool;
use crate::json::{copy_members, Doc, Json};
use vstd::prelude::*;

verus! {

/// What a model is told of a tool.
#[derive(Debug, PartialEq, Eq)]
pub struct ToolDefinition {
    pub name: String,
    pub description: String,
    /// The schema of the tool's arguments.
    pub parameters: Json,
}

/// The schema of a tool's arguments.
pub open spec fn schema_of(tool: Tool) -> Doc {
    Doc::Object(members_of(tool.input_schema@))
}

/// The name that models are given for a tool.
pub open spec fn model_name(tool: Tool) -> Seq<char> {
    sanitized_name(tool.name@, alphanumerics(tool.name@))
}

/// Whether a tool is offered to models at all. Where schemas are sanitized, a
/// tool whose schema names another type than an object is not.
pub open spec fn offered(tool: Tool, sanitize_schemas: bool) -> bool {
    sanitize_schemas ==> foreign_type(schema_of(tool)) is None
}

/// The schema that models are given.
pub open spec fn model_schema(tool: Tool, sanitize_schemas: bool) -> Doc {
    if sanitize_schemas {
        sanitized(schema_of(tool))
    } else {
        schema_of(tool)
    }
}

impl McpManager {
    /// What a model is told of a tool, where the tool is offered.
    pub fn convert_tool_to_rig_definition(mcp_tool: &Tool, sanitize_schemas: bool) -> (r: Option<
        ToolDefinition,
    >)
        ensures
            match r {
                Some(d) => {
                    &&& offered(*mcp_tool, sanitize_schemas)
                    &&& d.name@ == model_name(*mcp_tool)
                    &&& d.description@ == match mcp_tool.description {
                        Some(description) => description@,
                        None => Seq::empty(),
                    }
                    &&& d.parameters@ == model_schema(*mcp_tool, sanitize_schemas)
                },
                None => !offered(*mcp_tool, sanitize_schemas),
            },
    {
        let name = sanitize_tool_name(&mcp_tool.name);
        let schema = Json::Object(copy_members(&mcp_tool.input_schema));
        let parameters = if sanitize_schemas {
            match sanitize_schema_for_openai(&schema) {
                Ok(s) => s,
                Err(_) => return None,
            }
        } else {
            schema
        };
        let description = match &mcp_tool.description {
            Some(d) => d.clone(),
            None => String::new(),
        };
        Some(ToolDefinition { name, description, parameters })
    }
}

/// Whether `r` is the tool as it is kept: with the name and the schema that
/// models are given, and all else as the server offers it.
pub open spec fn kept_as(r: Tool, tool: Tool, sanitize_schemas: bool) -> bool {
    &&& r.name@ == model_name(tool)
    &&& schema_of(r) == model_schema(tool, sanitize_schemas)
    &&& r.title == tool.title
    &&& r.description == tool.description
    &&& r.output_schema == tool.output_schema
    &&& r.annotations == tool.annotations
    &&& r.icons == tool.icons
    &&& r.meta == tool.meta
}

/// The tool as it is kept, or why it is not offered.
pub fn sanitize_mcp_tool(tool: Tool, sanitize_schemas: bool) -> (r: Result<Tool, String>)
    ensures
        match r {
            Ok(kept) => offered(tool, sanitize_schemas) && kept_as(kept, tool, sanitize_schemas),
            Err(reason) => {
                &&& !offered(tool, sanitize_schemas)
                &&& foreign_type(schema_of(tool)) matches Some(t) && reason@ == refusal(t)
            },
        },
{
    let name = sanitize_tool_name(&tool.name);
    let Tool {
        name: _,
        title,
        description,
        input_schema,
        output_schema,
        annotations,
        icons,
        meta,
    } = tool;
    let input_schema = if sanitize_schemas {
        let schema = Json::Object(input_schema);
        match sanitize_schema_for_openai(&schema)? {
            Json::Object(members) => members,
            _ => Vec::new(),
        }
    } else {
        input_schema
    };
    Ok(Tool { name, title, description, input_schema, output_schema, annotations, icons, meta })
}

/// The tools that are offered.
pub open spec fn offered_of(tools: Seq<Tool>, sanitize_schemas: bool) -> Seq<Tool> {
    tools.filter(|t: Tool| offered(t, sanitize_schemas))
}

/// Whether `kept` holds every tool that is offered, as it is kept, in order.
pub open spec fn collected(kept: Seq<Tool>, tools: Seq<Tool>, sanitize_schemas: bool) -> bool {
    &&& kept.len() == offered_of(tools, sanitize_schemas).len()
    &&& forall|i: int|
        0 <= i < kept.len() ==> kept_as(
            #[trigger] kept[i],
            offered_of(tools, sanitize_schemas)[i],
            sanitize_schemas,
        )
}

/// The tools of a server as they are kept; those that are not offered go.
pub fn sanitize_and_collect_tools(tools: Vec<Tool>, sanitize_schemas: bool) -> (r: Vec<Tool>)
    ensures
        collected(r@, tools@, sanitize_schemas),
{
    let ghost all = tools@;
    let ghost keep = |t: Tool| offered(t, sanitize_schemas);
    let mut tools = tools;
    let mut r: Vec<Tool> = Vec::new();
    let ghost mut done: int = 0;
    proof {
        reveal(Seq::filter);
    }
    while tools.len() > 0
        invariant
            keep == (|t: Tool| offered(t, sanitize_schemas)),
            0 <= done <= all.len(),
            tools@ == all.skip(done),
            collected(r@, all.take(done), sanitize_schemas),
        decreases tools.len(),
    {
        let ghost before = all.take(done);
        assert(all.take(done + 1).drop_last() =~= before);
        assert(all.take(done + 1).last() == all[done]);
        let tool = tools.remove(0);
        assert(tools@ =~= all.skip(done + 1));
        assert(tool == all[done]);
        proof {
            reveal(Seq::filter);
        }
        match sanitize_mcp_tool(tool, sanitize_schemas) {
            Ok(kept) => r.push(kept),
            Err(_) => (),
        }
        proof {
            done = done + 1;
        }
    }
    assert(all.take(all.len() as int) =~= all);
    r
}

/// Without sanitizing, every tool is offered, with the schema its server gave.
pub proof fn law_raw_tools_are_all_kept(tools: Seq<Tool>, kept: Seq<Tool>)
    requires
        collected(kept, tools, false),
    ensures
        kept.len() == tools.len(),
        forall|i: int|
            0 <= i < tools.len() ==> schema_of(#[trigger] kept[i]) == schema_of(tools[i]),
{
    let keep = |t: Tool| offered(t, false);
    lemma_filter_keeps_all(tools, keep);
}

proof fn lemma_filter_keeps_all(tools: Seq<Tool>, keep: spec_fn(Tool) -> bool)
    requires
        forall|t: Tool| #[trigger] keep(t),
    ensures
        tools.filter(keep) == tools,
    decreases tools.len(),
{
    reveal(Seq::filter);
    if tools.len() > 0 {
        lemma_filter_keeps_all(tools.drop_last(), keep);
        assert(tools.drop_last().push(tools.last()) =~= tools);
    }
}

} // verus!
