//! Tools as servers offer them, and as they are published.
use super::glob::{selects, GlobPattern};
use super::schema_sanitize::members_of;
use crate::json::{copy_members, Doc, Json, Member};
use vstd::prelude::*;

verus! {

/// What a server says of how a tool behaves.
#[derive(Debug, PartialEq, Eq)]
pub struct ToolAnnotations {
    pub title: Option<String>,
    pub read_only_hint: Option<bool>,
    pub destructive_hint: Option<bool>,
    pub idempotent_hint: Option<bool>,
    pub open_world_hint: Option<bool>,
}

/// A picture of a tool.
#[derive(Debug, PartialEq, Eq)]
pub struct Icon {
    pub src: String,
    pub mime_type: Option<String>,
    pub sizes: Option<Vec<String>>,
}

/// A tool as a server offers it. Schemas and metadata are objects, given by
/// their members.
#[derive(Debug, PartialEq, Eq)]
pub struct Tool {
    pub name: String,
    pub title: Option<String>,
    pub description: Option<String>,
    pub input_schema: Vec<Member>,
    pub output_schema: Option<Vec<Member>>,
    pub annotations: Option<ToolAnnotations>,
    pub icons: Option<Vec<Icon>>,
    pub meta: Option<Vec<Member>>,
}

impl Tool {
    /// A tool with a name, a description and a schema.
    pub fn new(name: &str, description: &str, input_schema: Vec<Member>) -> (r: Tool)
        ensures
            r.name@ == name@,
            r.description matches Some(d) && d@ == description@,
            r.input_schema == input_schema,
            r.title is None,
            r.output_schema is None,
            r.annotations is None,
            r.icons is None,
            r.meta is None,
    {
        Tool {
            name: name.to_owned(),
            title: None,
            description: Some(description.to_owned()),
            input_schema,
            output_schema: None,
            annotations: None,
            icons: None,
            meta: None,
        }
    }
}

/// A tool's name, without its server.
#[derive(Debug, PartialEq, Eq)]
pub struct ToolName {
    text: String,
}

impl View for ToolName {
    type V = Seq<char>;

    closed spec fn view(&self) -> Seq<char> {
        self.text@
    }
}

impl ToolName {
    pub fn new(text: &str) -> (r: ToolName)
        ensures
            r@ == text@,
    {
        ToolName { text: text.to_owned() }
    }

    pub fn as_str(&self) -> (r: &str)
        ensures
            r@ == self@,
    {
        &self.text
    }

    pub fn to_string(&self) -> (r: String)
        ensures
            r@ == self@,
    {
        self.text.clone()
    }

    pub fn into_string(self) -> (r: String)
        ensures
            r@ == self@,
    {
        self.text
    }
}

/// The name under which a server is configured.
#[derive(Debug, PartialEq, Eq)]
pub struct ToolNamespace {
    text: String,
}

impl View for ToolNamespace {
    type V = Seq<char>;

    closed spec fn view(&self) -> Seq<char> {
        self.text@
    }
}

impl ToolNamespace {
    pub fn new(text: &str) -> (r: ToolNamespace)
        ensures
            r@ == text@,
    {
        ToolNamespace { text: text.to_owned() }
    }

    pub fn as_str(&self) -> (r: &str)
        ensures
            r@ == self@,
    {
        &self.text
    }

    pub fn to_string(&self) -> (r: String)
        ensures
            r@ == self@,
    {
        self.text.clone()
    }
}

/// What is published of how a tool behaves.
#[derive(Debug, PartialEq, Eq)]
pub struct McpToolAnnotations {
    pub title: Option<String>,
    pub read_only_hint: Option<bool>,
    pub destructive_hint: Option<bool>,
    pub idempotent_hint: Option<bool>,
    pub open_world_hint: Option<bool>,
}

/// What is published of a tool: everything but its icons.
#[derive(Debug, PartialEq, Eq)]
pub struct McpToolOverview {
    pub name: String,
    pub title: Option<String>,
    pub description: Option<String>,
    pub input_schema: Option<Json>,
    pub output_schema: Option<Json>,
    pub annotations: Option<McpToolAnnotations>,
    pub meta: Option<Json>,
}

/// A tool together with the server that offers it.
#[derive(Debug)]
pub struct AuraTool {
    inner: Tool,
    namespace: ToolNamespace,
    name: ToolName,
}

impl AuraTool {
    /// The tool as the server offers it.
    pub closed spec fn tool(self) -> Tool {
        self.inner
    }

    /// The server's name.
    pub closed spec fn server(self) -> Seq<char> {
        self.namespace@
    }

    /// The name is that of the tool, without the server.
    #[verifier::type_invariant]
    spec fn name_is_bare(self) -> bool {
        self.name@ == self.inner.name@
    }

    /// A tool of the server with the given name. The tool's own name is
    /// already fit for models.
    pub fn new(inner: Tool, namespace: &str) -> (r: AuraTool)
        ensures
            r.tool() == inner,
            r.server() == namespace@,
    {
        let name = ToolName::new(&inner.name);
        AuraTool { inner, namespace: ToolNamespace::new(namespace), name }
    }

    pub fn name(&self) -> (r: &ToolName)
        ensures
            r@ == self.tool().name@,
    {
        proof {
            use_type_invariant(self);
        }
        &self.name
    }

    pub fn namespace(&self) -> (r: &ToolNamespace)
        ensures
            r@ == self.server(),
    {
        &self.namespace
    }

    pub fn description(&self) -> (r: Option<&str>)
        ensures
            match r {
                Some(d) => self.tool().description matches Some(own) && own@ == d@,
                None => self.tool().description is None,
            },
    {
        match &self.inner.description {
            Some(d) => Some(d.as_str()),
            None => None,
        }
    }

    /// The schema of the tool's arguments.
    pub fn input_schema(&self) -> (r: Json)
        ensures
            r@ == Doc::Object(members_of(self.tool().input_schema@)),
    {
        Json::Object(copy_members(&self.inner.input_schema))
    }

    /// The tool as the server offers it.
    pub fn raw(&self) -> (r: &Tool)
        ensures
            *r == self.tool(),
    {
        &self.inner
    }

    /// Whether a pattern selects the tool. The server is always known here.
    pub fn is_match(&self, glob: &GlobPattern) -> (r: bool)
        ensures
            r == selects(glob@, Some(self.server()), self.tool().name@),
    {
        glob.matches(Some(self.namespace.as_str()), self.name().as_str())
    }

    /// What is published of the tool. Its name is published without the
    /// server, as models see it.
    pub fn into_overview(self) -> (r: McpToolOverview)
        ensures
            r.name@ == self.tool().name@,
            r.title == self.tool().title,
            r.description == self.tool().description,
            r.input_schema == Some(Json::Object(self.tool().input_schema)),
            r.output_schema == match self.tool().output_schema {
                Some(members) => Some(Json::Object(members)),
                None => None,
            },
            match self.tool().annotations {
                Some(a) => r.annotations == Some(
                    McpToolAnnotations {
                        title: a.title,
                        read_only_hint: a.read_only_hint,
                        destructive_hint: a.destructive_hint,
                        idempotent_hint: a.idempotent_hint,
                        open_world_hint: a.open_world_hint,
                    },
                ),
                None => r.annotations is None,
            },
            r.meta == match self.tool().meta {
                Some(members) => Some(Json::Object(members)),
                None => None,
            },
    {
        proof {
            use_type_invariant(&self);
        }
        let inner = self.inner;
        McpToolOverview {
            name: self.name.into_string(),
            title: inner.title,
            description: inner.description,
            input_schema: Some(Json::Object(inner.input_schema)),
            output_schema: match inner.output_schema {
                Some(members) => Some(Json::Object(members)),
                None => None,
            },
            annotations: match inner.annotations {
                Some(a) => Some(
                    McpToolAnnotations {
                        title: a.title,
                        read_only_hint: a.read_only_hint,
                        destructive_hint: a.destructive_hint,
                        idempotent_hint: a.idempotent_hint,
                        open_world_hint: a.open_world_hint,
                    },
                ),
                None => None,
            },
            meta: match inner.meta {
                Some(members) => Some(Json::Object(members)),
                None => None,
            },
        }
    }
}

} // verus!
