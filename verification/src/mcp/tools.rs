//! Tools as they are handed to an agent.
use super::connections::Transport;
use super::conversion::{model_name, model_schema, offered, ToolDefinition};
use super::execution::arguments_of;
use super::manager::{McpManager, ServerTools};
use super::schema_sanitize::members_of;
use super::types::{AuraTool, Tool};
use crate::json::{Doc, Json, Member};
use vstd::prelude::*;

verus! {

// ---------------------------------------------------------------------------
// Errors
// ---------------------------------------------------------------------------

/// Why a tool could not be run.
#[derive(Debug, PartialEq, Eq)]
pub struct ToolExecutionError {
    message: String,
}

impl View for ToolExecutionError {
    type V = Seq<char>;

    closed spec fn view(&self) -> Seq<char> {
        self.message@
    }
}

impl ToolExecutionError {
    /// An error with the given message.
    pub fn from(message: String) -> (r: ToolExecutionError)
        ensures
            r@ == message@,
    {
        ToolExecutionError { message }
    }

    /// The error as it is shown.
    pub fn to_string(&self) -> (r: String)
        ensures
            r@ == "Tool execution error: "@ + self@,
    {
        let mut r = "Tool execution error: ".to_owned();
        r.append(&self.message);
        r
    }
}

/// The arguments of a call, which must be an object.
pub fn object_arguments(args: Json) -> (r: Result<Vec<Member>, ToolExecutionError>)
    ensures
        match r {
            Ok(members) => args is Object && members@ == arguments_of(args),
            Err(e) => !(args is Object) && e@ == "Invalid arguments: expected JSON object"@,
        },
{
    match args {
        Json::Object(members) => Ok(members),
        _ => Err(ToolExecutionError::from("Invalid arguments: expected JSON object".to_owned())),
    }
}

/// The kinds of tool that a call can be made through.
#[derive(Debug, Clone, Copy, PartialEq, Eq, Structural)]
pub enum ToolKind {
    /// One of the tools with a fixed name.
    Named,
    Streamable,
    Fallback,
}

/// What stands before the reason for a failed call.
pub open spec fn failure_prefix(kind: ToolKind) -> Seq<char> {
    match kind {
        ToolKind::Named => "MCP tool call failed: "@,
        ToolKind::Streamable => "Tool execution failed: "@,
        ToolKind::Fallback => "Fallback tool execution failed: "@,
    }
}

/// What a call comes to.
pub fn called(kind: ToolKind, result: Result<String, String>) -> (r: Result<
    String,
    ToolExecutionError,
>)
    ensures
        match result {
            Ok(response) => r == Ok::<String, ToolExecutionError>(response),
            Err(e) => r matches Err(error) && error@ == failure_prefix(kind) + e@,
        },
{
    match result {
        Ok(response) => Ok(response),
        Err(e) => {
            let mut message = match kind {
                ToolKind::Named => "MCP tool call failed: ".to_owned(),
                ToolKind::Streamable => "Tool execution failed: ".to_owned(),
                ToolKind::Fallback => "Fallback tool execution failed: ".to_owned(),
            };
            message.append(&e);
            Err(ToolExecutionError::from(message))
        },
    }
}

// ---------------------------------------------------------------------------
// Tools of one server
// ---------------------------------------------------------------------------

/// A tool of a server together with what a model is told of it.
#[derive(Debug)]
pub struct StreamableHttpMcpTool {
    pub tool_name: String,
    pub server_name: String,
    pub tool_definition: ToolDefinition,
}

/// Whether `d` is what a model is told of a tool under the given name.
pub open spec fn defines(
    d: ToolDefinition,
    name: Seq<char>,
    tool: Tool,
    sanitize_schemas: bool,
) -> bool {
    &&& d.name@ == name
    &&& d.description@ == match tool.description {
        Some(description) => description@,
        None => Seq::empty(),
    }
    &&& d.parameters@ == model_schema(tool, sanitize_schemas)
}

impl StreamableHttpMcpTool {
    /// A tool of a server, where the tool is offered.
    pub fn new(
        tool_name: String,
        server_name: String,
        mcp_tool: &Tool,
        sanitize_schemas: bool,
    ) -> (r: Option<StreamableHttpMcpTool>)
        ensures
            match r {
                Some(t) => {
                    &&& offered(*mcp_tool, sanitize_schemas)
                    &&& t.tool_name == tool_name
                    &&& t.server_name == server_name
                    &&& defines(
                        t.tool_definition,
                        model_name(*mcp_tool),
                        *mcp_tool,
                        sanitize_schemas,
                    )
                },
                None => !offered(*mcp_tool, sanitize_schemas),
            },
    {
        match McpManager::convert_tool_to_rig_definition(mcp_tool, sanitize_schemas) {
            Some(tool_definition) => Some(
                StreamableHttpMcpTool { tool_name, server_name, tool_definition },
            ),
            None => None,
        }
    }
}

/// A tool under a name of its own, where its name alone would not be unique.
#[derive(Debug)]
pub struct FallbackHttpMcpTool {
    pub unique_name: String,
    pub original_tool_name: String,
    pub server_name: String,
    pub tool_definition: ToolDefinition,
}

impl FallbackHttpMcpTool {
    /// A tool under a name of its own, where the tool is offered.
    pub fn new(
        unique_name: String,
        original_tool_name: String,
        server_name: String,
        mcp_tool: &Tool,
        sanitize_schemas: bool,
    ) -> (r: Option<FallbackHttpMcpTool>)
        ensures
            match r {
                Some(t) => {
                    &&& offered(*mcp_tool, sanitize_schemas)
                    &&& t.unique_name == unique_name
                    &&& t.original_tool_name == original_tool_name
                    &&& t.server_name == server_name
                    &&& defines(t.tool_definition, unique_name@, *mcp_tool, sanitize_schemas)
                },
                None => !offered(*mcp_tool, sanitize_schemas),
            },
    {
        match McpManager::convert_tool_to_rig_definition(mcp_tool, sanitize_schemas) {
            Some(d) => {
                let tool_definition = ToolDefinition {
                    name: unique_name.clone(),
                    description: d.description,
                    parameters: d.parameters,
                };
                Some(
                    FallbackHttpMcpTool {
                        unique_name,
                        original_tool_name,
                        server_name,
                        tool_definition,
                    },
                )
            },
            None => None,
        }
    }
}

/// A tool under a name of its own, where the tool is offered.
pub fn create_fallback_http_tool(
    unique_tool_name: String,
    original_tool_name: String,
    server_name: String,
    mcp_tool: &Tool,
    sanitize_schemas: bool,
) -> (r: Option<FallbackHttpMcpTool>)
    ensures
        match r {
            Some(t) => {
                &&& offered(*mcp_tool, sanitize_schemas)
                &&& t.unique_name == unique_tool_name
                &&& t.original_tool_name == original_tool_name
                &&& t.server_name == server_name
                &&& defines(t.tool_definition, unique_tool_name@, *mcp_tool, sanitize_schemas)
            },
            None => !offered(*mcp_tool, sanitize_schemas),
        },
{
    FallbackHttpMcpTool::new(
        unique_tool_name,
        original_tool_name,
        server_name,
        mcp_tool,
        sanitize_schemas,
    )
}

/// A tool with the server that has it.
pub struct Placed {
    pub server: Seq<char>,
    pub tool: Tool,
}

/// The first `n` tools of a server that are offered.
pub open spec fn placed_tools(s: ServerTools, sanitize_schemas: bool, n: int) -> Seq<Placed>
    decreases n,
{
    if n <= 0 || n > s.tools@.len() {
        Seq::empty()
    } else if offered(s.tools@[n - 1], sanitize_schemas) {
        placed_tools(s, sanitize_schemas, n - 1).push(
            Placed { server: s.server@, tool: s.tools@[n - 1] },
        )
    } else {
        placed_tools(s, sanitize_schemas, n - 1)
    }
}

/// The tools of the first `n` servers that are offered.
pub open spec fn placed(list: Seq<ServerTools>, sanitize_schemas: bool, n: int) -> Seq<Placed>
    decreases n,
{
    if n <= 0 || n > list.len() {
        Seq::empty()
    } else {
        placed(list, sanitize_schemas, n - 1) + placed_tools(
            list[n - 1],
            sanitize_schemas,
            list[n - 1].tools@.len() as int,
        )
    }
}

/// Whether `t` is the tool at a place.
pub open spec fn stands_for(t: StreamableHttpMcpTool, p: Placed, sanitize_schemas: bool) -> bool {
    &&& t.tool_name@ == p.tool.name@
    &&& t.server_name@ == p.server
    &&& defines(t.tool_definition, model_name(p.tool), p.tool, sanitize_schemas)
}

impl McpManager {
    /// The tools of the servers reached over HTTP that are offered.
    pub fn get_streamable_http_tools(&self) -> (r: Vec<StreamableHttpMcpTool>)
        ensures
            ({
                let all = placed(
                    self.streamable_tools@,
                    self.sanitize_schemas,
                    self.streamable_tools@.len() as int,
                );
                &&& r.len() == all.len()
                &&& forall|i: int|
                    0 <= i < r.len() ==> stands_for(
                        #[trigger] r@[i],
                        all[i],
                        self.sanitize_schemas,
                    )
            }),
    {
        let mut r: Vec<StreamableHttpMcpTool> = Vec::new();
        let list = &self.streamable_tools;
        for s in 0..list.len()
            invariant
                *list == self.streamable_tools,
                r.len() == placed(list@, self.sanitize_schemas, s as int).len(),
                forall|i: int|
                    0 <= i < r.len() ==> stands_for(
                        #[trigger] r@[i],
                        placed(list@, self.sanitize_schemas, s as int)[i],
                        self.sanitize_schemas,
                    ),
        {
            let ghost before = placed(list@, self.sanitize_schemas, s as int);
            let tools = &list[s].tools;
            for t in 0..tools.len()
                invariant
                    s < list.len(),
                    *list == self.streamable_tools,
                    *tools == list@[s as int].tools,
                    before == placed(list@, self.sanitize_schemas, s as int),
                    r.len() == before.len() + placed_tools(
                        list@[s as int],
                        self.sanitize_schemas,
                        t as int,
                    ).len(),
                    forall|i: int|
                        0 <= i < r.len() ==> stands_for(
                            #[trigger] r@[i],
                            (before + placed_tools(
                                list@[s as int],
                                self.sanitize_schemas,
                                t as int,
                            ))[i],
                            self.sanitize_schemas,
                        ),
            {
                let ghost here = before + placed_tools(
                    list@[s as int],
                    self.sanitize_schemas,
                    t as int,
                );
                let ghost after = before + placed_tools(
                    list@[s as int],
                    self.sanitize_schemas,
                    t + 1,
                );
                match StreamableHttpMcpTool::new(
                    tools[t].name.clone(),
                    list[s].server.clone(),
                    &tools[t],
                    self.sanitize_schemas,
                ) {
                    Some(tool) => {
                        assert(after =~= here.push(
                            Placed { server: list@[s as int].server@, tool: tools@[t as int] },
                        ));
                        r.push(tool);
                    },
                    None => {
                        assert(after =~= here);
                    },
                }
            }
        }
        r
    }
}

// ---------------------------------------------------------------------------
// The adaptor
// ---------------------------------------------------------------------------

/// A tool as it is registered with an agent, with the way its server is
/// reached.
#[derive(Debug)]
pub struct McpToolAdaptor {
    tool: AuraTool,
    transport: Transport,
}

/// Whether a transport can send headers with one request alone.
pub open spec fn delivers_overrides(transport: Transport) -> bool {
    transport == Transport::HttpStreamable
}

impl McpToolAdaptor {
    /// The tool.
    pub closed spec fn inner(self) -> AuraTool {
        self.tool
    }

    /// The way its server is reached.
    pub closed spec fn over(self) -> Transport {
        self.transport
    }

    pub fn new(tool: AuraTool, transport: Transport) -> (r: McpToolAdaptor)
        ensures
            r.inner() == tool,
            r.over() == transport,
    {
        McpToolAdaptor { tool, transport }
    }

    /// The name under which the tool is registered and called.
    pub fn name(&self) -> (r: String)
        ensures
            r@ == self.inner().tool().name@,
    {
        self.tool.name().to_string()
    }

    /// The server that the tool is of.
    pub fn namespace(&self) -> (r: &str)
        ensures
            r@ == self.inner().server(),
    {
        self.tool.namespace().as_str()
    }

    /// What a model is told of the tool. It carries the name under which the
    /// tool is registered.
    pub fn definition(&self) -> (r: ToolDefinition)
        ensures
            r.name@ == self.inner().tool().name@,
            r.description@ == match self.inner().tool().description {
                Some(d) => d@,
                None => Seq::empty(),
            },
            r.parameters@ == Doc::Object(members_of(self.inner().tool().input_schema@)),
    {
        let description = match self.tool.description() {
            Some(d) => d.to_owned(),
            None => String::new(),
        };
        ToolDefinition { name: self.name(), description, parameters: self.tool.input_schema() }
    }

    /// Whether a call may go out. One that carries headers of its own goes out
    /// only where the transport can send them with this call alone.
    pub fn may_dispatch(&self, has_overrides: bool) -> (r: bool)
        ensures
            r == (has_overrides ==> delivers_overrides(self.over())),
    {
        match self.transport {
            Transport::HttpStreamable => true,
            _ => !has_overrides,
        }
    }
}

} // verus!
