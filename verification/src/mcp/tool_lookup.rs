//! Looking up the tools of a run.
use super::connections::Transport;
use super::glob::{glob_match, matches_glob};
use super::manager::{McpManager, ServerTools};
use super::schema_sanitize::members_of;
use super::types::Tool;
use crate::json::{
    compact_json, copy_members, json_read, lemma_member_docs, lemma_object, member_docs, read_json,
    write_compact, Doc, Json, Member,
};
use crate::text::same;
use crate::text::trim::views;
use vstd::prelude::*;

verus! {

/// The tools of the first `n` servers of a list, in order.
pub open spec fn listed(list: Seq<ServerTools>, n: int) -> Seq<Tool>
    decreases n,
{
    if n <= 0 || n > list.len() {
        Seq::empty()
    } else {
        listed(list, n - 1) + list[n - 1].tools@
    }
}

/// The tools of a list, in order.
pub open spec fn tools_in(list: Seq<ServerTools>) -> Seq<Tool> {
    listed(list, list.len() as int)
}

/// The names of tools.
pub open spec fn names_of(tools: Seq<Tool>) -> Seq<Seq<char>> {
    Seq::new(tools.len(), |i: int| tools[i].name@)
}

/// Whether one of the tools has a name.
pub open spec fn names_tool(tools: Seq<Tool>, name: Seq<char>) -> bool {
    exists|i: int| 0 <= i < tools.len() && (#[trigger] tools[i]).name@ == name
}

/// The place of the first server in a list, at or after place `i`, that has a
/// tool of a name.
pub open spec fn first_with_tool(list: Seq<ServerTools>, name: Seq<char>, i: int) -> Option<int>
    decreases list.len() - i,
{
    if i < 0 || i >= list.len() {
        None
    } else if names_tool(list[i].tools@, name) {
        Some(i)
    } else {
        first_with_tool(list, name, i + 1)
    }
}

/// The place of the server of a name in a list, at or after place `i`.
pub open spec fn server_place(list: Seq<ServerTools>, name: Seq<char>, i: int) -> Option<int>
    decreases list.len() - i,
{
    if i < 0 || i >= list.len() {
        None
    } else if list[i].server@ == name {
        Some(i)
    } else {
        server_place(list, name, i + 1)
    }
}

/// The server that a call without a model's own call goes to.
#[derive(Debug, PartialEq, Eq)]
pub struct FallbackRoute {
    pub transport: Transport,
    pub server: String,
}

fn push_tools<'a>(list: &'a Vec<ServerTools>, out: &mut Vec<&'a Tool>)
    ensures
        final(out)@.len() == old(out)@.len() + tools_in(list@).len(),
        forall|i: int| 0 <= i < old(out)@.len() ==> #[trigger] final(out)@[i] == old(out)@[i],
        forall|i: int|
            0 <= i < tools_in(list@).len() ==> *#[trigger] final(out)@[old(out)@.len() + i]
                == tools_in(list@)[i],
{
    let ghost given = out@;
    for s in 0..list.len()
        invariant
            out@.len() == given.len() + listed(list@, s as int).len(),
            forall|i: int| 0 <= i < given.len() ==> #[trigger] out@[i] == given[i],
            forall|i: int|
                0 <= i < listed(list@, s as int).len() ==> *#[trigger] out@[given.len() + i]
                    == listed(list@, s as int)[i],
    {
        let ghost before = listed(list@, s as int);
        let tools = &list[s].tools;
        for t in 0..tools.len()
            invariant
                s < list.len(),
                *tools == list@[s as int].tools,
                before == listed(list@, s as int),
                out@.len() == given.len() + before.len() + t,
                forall|i: int| 0 <= i < given.len() ==> #[trigger] out@[i] == given[i],
                forall|i: int|
                    0 <= i < before.len() + t ==> *#[trigger] out@[given.len() + i] == (before
                        + tools@)[i],
        {
            let ghost earlier = out@;
            out.push(&tools[t]);
            proof {
                assert forall|i: int| 0 <= i < before.len() + t + 1 implies *#[trigger] out@[
                given.len() + i] == (before + tools@)[i] by {
                    if i < before.len() + t {
                        assert(out@[given.len() + i] == earlier[given.len() + i]);
                    }
                }
            }
        }
    }
}

impl McpManager {
    /// The tools of every server: those reached over HTTP, those reached over
    /// event streams, those that are programs.
    pub open spec fn all_tools(self) -> Seq<Tool> {
        tools_in(self.streamable_tools@) + tools_in(self.sse_tools@) + tools_in(self.stdio_tools@)
    }

    /// The tools of every server, in this order.
    pub fn tool_definitions_iter(&self) -> (r: Vec<&Tool>)
        ensures
            r.len() == self.all_tools().len(),
            forall|i: int| 0 <= i < r.len() ==> *#[trigger] r@[i] == self.all_tools()[i],
    {
        let ghost a = tools_in(self.streamable_tools@);
        let ghost b = tools_in(self.sse_tools@);
        let ghost c = tools_in(self.stdio_tools@);
        let mut r: Vec<&Tool> = Vec::new();
        push_tools(&self.streamable_tools, &mut r);
        let ghost one = r@;
        push_tools(&self.sse_tools, &mut r);
        let ghost two = r@;
        push_tools(&self.stdio_tools, &mut r);
        proof {
            assert forall|i: int| 0 <= i < r.len() implies *#[trigger] r@[i]
                == self.all_tools()[i] by {
                if i < a.len() {
                    assert(r@[i] == two[i] && two[i] == one[i]);
                    assert(*one[0 + i] == a[i]);
                } else if i < a.len() + b.len() {
                    assert(r@[i] == two[i]);
                    assert(*two[one.len() + (i - a.len())] == b[i - a.len()]);
                } else {
                    assert(*r@[two.len() + (i - a.len() - b.len())] == c[i - a.len() - b.len()]);
                }
            }
        }
        r
    }

    /// The names of every tool.
    pub fn get_available_tool_names(&self) -> (r: Vec<String>)
        ensures
            views(r@) == names_of(self.all_tools()),
    {
        let tools = self.tool_definitions_iter();
        let mut r: Vec<String> = Vec::new();
        for i in 0..tools.len()
            invariant
                tools.len() == self.all_tools().len(),
                forall|j: int| 0 <= j < tools.len() ==> *#[trigger] tools@[j] == self.all_tools()[j],
                r.len() == i,
                forall|j: int| 0 <= j < i ==> (#[trigger] r@[j])@ == self.all_tools()[j].name@,
        {
            assert(*tools@[i as int] == self.all_tools()[i as int]);
            r.push(tools[i].name.clone());
        }
        r
    }
}

// ---------------------------------------------------------------------------
// Schemas
// ---------------------------------------------------------------------------

/// Whether a tool passes a filter: no filter takes every tool, a list of
/// patterns those that one of them matches.
pub open spec fn passes(filter: Option<Seq<String>>, name: Seq<char>) -> bool {
    match filter {
        None => true,
        Some(patterns) => some_matches(patterns, name),
    }
}

/// Whether one of the patterns matches a name.
pub open spec fn some_matches(patterns: Seq<String>, name: Seq<char>) -> bool {
    exists|i: int| 0 <= i < patterns.len() && matches_glob((#[trigger] patterns[i])@, name)
}

/// A tool as a function that a model can call.
pub open spec fn function_doc(tool: Tool) -> Doc {
    Doc::Object(
        seq![
            ("type"@, Doc::Text("function"@)),
            (
                "function"@,
                Doc::Object(
                    seq![
                        ("name"@, Doc::Text(tool.name@)),
                        (
                            "description"@,
                            match tool.description {
                                Some(d) => Doc::Text(d@),
                                None => Doc::Null,
                            },
                        ),
                        ("parameters"@, Doc::Object(members_of(tool.input_schema@))),
                    ],
                ),
            ),
        ],
    )
}

/// A tool as a function that a model can call, written as JSON.
pub open spec fn function_schema(tool: Tool) -> Seq<char> {
    compact_json(function_doc(tool))
}

fn one_matches(patterns: &Vec<String>, name: &str) -> (r: bool)
    ensures
        r == some_matches(patterns@, name@),
{
    for i in 0..patterns.len()
        invariant
            forall|j: int| 0 <= j < i ==> !matches_glob((#[trigger] patterns@[j])@, name@),
    {
        if glob_match(&patterns[i], name) {
            assert(matches_glob(patterns@[i as int]@, name@));
            return true;
        }
    }
    false
}

fn does_pass(filter: Option<&Vec<String>>, name: &str) -> (r: bool)
    ensures
        r == passes(
            match filter {
                Some(patterns) => Some(patterns@),
                None => None,
            },
            name@,
        ),
{
    match filter {
        None => true,
        Some(patterns) => one_matches(patterns, name),
    }
}

/// A tool as a function that a model can call, written as JSON.
fn write_function(tool: &Tool) -> (r: String)
    ensures
        r@ == function_schema(*tool),
{
    let ghost model = function_doc(*tool)->Object_0;
    let description = match &tool.description {
        Some(d) => Json::Text(d.clone()),
        None => Json::Null,
    };
    let schema = copy_members(&tool.input_schema);
    proof {
        lemma_member_docs(schema@, schema@.len() as int);
        lemma_member_docs(tool.input_schema@, tool.input_schema@.len() as int);
        assert(member_docs(tool.input_schema@, tool.input_schema@.len() as int) =~= members_of(
            tool.input_schema@,
        ));
    }
    let mut function: Vec<Member> = Vec::new();
    function.push(Member { key: "name".to_owned(), value: Json::Text(tool.name.clone()) });
    function.push(Member { key: "description".to_owned(), value: description });
    function.push(Member { key: "parameters".to_owned(), value: Json::Object(schema) });
    proof {
        lemma_object(function, model[1].1->Object_0);
    }
    let mut members: Vec<Member> = Vec::new();
    members.push(Member { key: "type".to_owned(), value: Json::Text("function".to_owned()) });
    members.push(Member { key: "function".to_owned(), value: Json::Object(function) });
    proof {
        lemma_object(members, model);
    }
    write_compact(&Json::Object(members))
}

/// The schemas of the first `n` tools that pass a filter.
pub open spec fn schemas_of(tools: Seq<Tool>, filter: Option<Seq<String>>, n: int) -> Seq<Seq<char>>
    decreases n,
{
    if n <= 0 || n > tools.len() {
        Seq::empty()
    } else if passes(filter, tools[n - 1].name@) {
        schemas_of(tools, filter, n - 1).push(function_schema(tools[n - 1]))
    } else {
        schemas_of(tools, filter, n - 1)
    }
}

impl McpManager {
    /// The tools that pass a filter, each as a function that a model can call,
    /// written as JSON.
    pub fn tool_schemas_json(&self, filter: Option<&Vec<String>>) -> (r: Vec<String>)
        ensures
            views(r@) == schemas_of(
                self.all_tools(),
                match filter {
                    Some(patterns) => Some(patterns@),
                    None => None,
                },
                self.all_tools().len() as int,
            ),
    {
        let tools = self.tool_definitions_iter();
        let ghost all = self.all_tools();
        let ghost patterns = match filter {
            Some(patterns) => Some(patterns@),
            None => None,
        };
        let mut r: Vec<String> = Vec::new();
        assert(views(r@) =~= Seq::<Seq<char>>::empty());
        for i in 0..tools.len()
            invariant
                tools.len() == all.len(),
                patterns == match filter {
                    Some(patterns) => Some(patterns@),
                    None => None,
                },
                forall|j: int| 0 <= j < tools.len() ==> *#[trigger] tools@[j] == all[j],
                views(r@) == schemas_of(all, patterns, i as int),
        {
            assert(*tools@[i as int] == all[i as int]);
            if does_pass(filter, &tools[i].name) {
                let ghost before = views(r@);
                let text = write_function(tools[i]);
                r.push(text);
                assert(views(r@) =~= before.push(text@));
            }
        }
        r
    }
}

// ---------------------------------------------------------------------------
// Servers
// ---------------------------------------------------------------------------

/// A server with the names of its tools.
#[derive(Debug, PartialEq, Eq)]
pub struct ServerToolNames {
    pub server: String,
    pub names: Vec<String>,
}

/// The names of the tools by server, of the first `n` servers of a list: a
/// later entry for a server replaces an earlier one.
pub open spec fn named_by_server(list: Seq<ServerTools>, n: int) -> Map<Seq<char>, Seq<Seq<char>>>
    decreases n,
{
    if n <= 0 || n > list.len() {
        Map::empty()
    } else {
        named_by_server(list, n - 1).insert(list[n - 1].server@, names_of(list[n - 1].tools@))
    }
}

/// Whether records hold the names by server, each server once.
pub open spec fn records_hold(
    records: Seq<ServerToolNames>,
    named: Map<Seq<char>, Seq<Seq<char>>>,
) -> bool {
    &&& forall|i: int, j: int|
        0 <= i < j < records.len() ==> (#[trigger] records[i]).server@ != (
        #[trigger] records[j]).server@
    &&& forall|i: int|
        0 <= i < records.len() ==> named.dom().contains((#[trigger] records[i]).server@)
            && named[records[i].server@] == views(records[i].names@)
    &&& forall|name: Seq<char>| #[trigger]
        named.dom().contains(name) ==> has_record(records, name)
}

/// Whether there is a record of a server.
pub open spec fn has_record(records: Seq<ServerToolNames>, name: Seq<char>) -> bool {
    exists|i: int| 0 <= i < records.len() && (#[trigger] records[i]).server@ == name
}

fn find_record(records: &Vec<ServerToolNames>, name: &str) -> (r: Option<usize>)
    ensures
        match r {
            Some(i) => i < records.len() && records@[i as int].server@ == name@,
            None => !has_record(records@, name@),
        },
{
    for i in 0..records.len()
        invariant
            forall|j: int| 0 <= j < i ==> (#[trigger] records@[j]).server@ != name@,
    {
        if same(&records[i].server, name) {
            return Some(i);
        }
    }
    None
}

/// Sets the record of a server.
fn put_names(records: &mut Vec<ServerToolNames>, record: ServerToolNames, Ghost(named): Ghost<
    Map<Seq<char>, Seq<Seq<char>>>,
>)
    requires
        records_hold(old(records)@, named),
    ensures
        records_hold(final(records)@, named.insert(record.server@, views(record.names@))),
{
    let ghost before = records@;
    let ghost server = record.server@;
    let ghost after = named.insert(record.server@, views(record.names@));
    let place = find_record(records, &record.server);
    let ghost at = match place {
        Some(i) => i as int,
        None => before.len() as int,
    };
    match place {
        Some(i) => {
            records.set(i, record);
        },
        None => {
            records.push(record);
        },
    }
    proof {
        assert(records@[at].server@ == server);
        assert forall|k: int| 0 <= k < records@.len() && k != at implies #[trigger] records@[k]
            == before[k] && before[k].server@ != server && k < before.len() by {}
        assert forall|name: Seq<char>| #[trigger] after.dom().contains(name) implies has_record(
            records@,
            name,
        ) by {
            if name != server {
                assert(named.dom().contains(name));
                let k = choose|k: int|
                    0 <= k < before.len() && (#[trigger] before[k]).server@ == name;
                assert(records@[k] == before[k]);
            }
        }
    }
}

/// The names of a server's tools.
fn tool_names(tools: &Vec<Tool>) -> (r: Vec<String>)
    ensures
        views(r@) == names_of(tools@),
{
    let mut names: Vec<String> = Vec::new();
    for t in 0..tools.len()
        invariant
            names.len() == t,
            forall|j: int| 0 <= j < t ==> (#[trigger] names@[j])@ == tools@[j].name@,
    {
        names.push(tools[t].name.clone());
    }
    assert(views(names@) =~= names_of(tools@));
    names
}

/// Sets the records of the servers of a list, which stands from place `from`
/// on in `all`.
fn put_all_names(
    list: &Vec<ServerTools>,
    records: &mut Vec<ServerToolNames>,
    Ghost(all): Ghost<Seq<ServerTools>>,
    Ghost(from): Ghost<int>,
)
    requires
        0 <= from,
        from + list@.len() <= all.len(),
        forall|i: int| 0 <= i < list@.len() ==> #[trigger] list@[i] == all[from + i],
        records_hold(old(records)@, named_by_server(all, from)),
    ensures
        records_hold(final(records)@, named_by_server(all, from + list@.len())),
{
    for s in 0..list.len()
        invariant
            0 <= from,
            from + list@.len() <= all.len(),
            forall|i: int| 0 <= i < list@.len() ==> #[trigger] list@[i] == all[from + i],
            records_hold(records@, named_by_server(all, from + s)),
    {
        let names = tool_names(&list[s].tools);
        let record = ServerToolNames { server: list[s].server.clone(), names };
        assert(list@[s as int] == all[from + s]);
        put_names(records, record, Ghost(named_by_server(all, from + s)));
    }
}

fn find_server(list: &Vec<ServerTools>, name: &str) -> (r: Option<usize>)
    ensures
        match r {
            Some(i) => i < list.len() && server_place(list@, name@, 0) == Some(i as int),
            None => server_place(list@, name@, 0) is None,
        },
{
    for i in 0..list.len()
        invariant
            server_place(list@, name@, 0) == server_place(list@, name@, i as int),
    {
        if same(&list[i].server, name) {
            return Some(i);
        }
    }
    None
}

fn has_tool(tools: &Vec<Tool>, name: &str) -> (r: bool)
    ensures
        r == names_tool(tools@, name@),
{
    for i in 0..tools.len()
        invariant
            forall|j: int| 0 <= j < i ==> (#[trigger] tools@[j]).name@ != name@,
    {
        if same(&tools[i].name, name) {
            return true;
        }
    }
    false
}

fn find_tool(list: &Vec<ServerTools>, name: &str) -> (r: Option<usize>)
    ensures
        match r {
            Some(i) => i < list.len() && first_with_tool(list@, name@, 0) == Some(i as int),
            None => first_with_tool(list@, name@, 0) is None,
        },
{
    for i in 0..list.len()
        invariant
            first_with_tool(list@, name@, 0) == first_with_tool(list@, name@, i as int),
    {
        if has_tool(&list[i].tools, name) {
            return Some(i);
        }
    }
    None
}

impl McpManager {
    /// The servers of every transport with the names of their tools, each
    /// server once.
    pub fn tool_names_per_server(&self) -> (r: Vec<ServerToolNames>)
        ensures
            ({
                let all = self.streamable_tools@ + self.sse_tools@ + self.stdio_tools@;
                records_hold(r@, named_by_server(all, all.len() as int))
            }),
    {
        let ghost all = self.streamable_tools@ + self.sse_tools@ + self.stdio_tools@;
        let ghost first = self.streamable_tools@.len() as int;
        let ghost second = first + self.sse_tools@.len();
        let mut r: Vec<ServerToolNames> = Vec::new();
        put_all_names(&self.streamable_tools, &mut r, Ghost(all), Ghost(0));
        put_all_names(&self.sse_tools, &mut r, Ghost(all), Ghost(first));
        put_all_names(&self.stdio_tools, &mut r, Ghost(all), Ghost(second));
        r
    }

    /// The tools of a server, as the transports are gone through in order; a
    /// server that is not known has none.
    pub open spec fn tools_of_server(self, name: Seq<char>) -> Seq<Tool> {
        match server_place(self.streamable_tools@, name, 0) {
            Some(i) => self.streamable_tools@[i].tools@,
            None => match server_place(self.sse_tools@, name, 0) {
                Some(i) => self.sse_tools@[i].tools@,
                None => match server_place(self.stdio_tools@, name, 0) {
                    Some(i) => self.stdio_tools@[i].tools@,
                    None => Seq::empty(),
                },
            },
        }
    }

    /// The tools of a server; none where it is not known.
    pub fn get_tool_definition_by_server(&self, name: &str) -> (r: Vec<&Tool>)
        ensures
            r.len() == self.tools_of_server(name@).len(),
            forall|i: int|
                0 <= i < r.len() ==> *#[trigger] r@[i] == self.tools_of_server(name@)[i],
    {
        let tools = match find_server(&self.streamable_tools, name) {
            Some(i) => &self.streamable_tools[i].tools,
            None => match find_server(&self.sse_tools, name) {
                Some(i) => &self.sse_tools[i].tools,
                None => match find_server(&self.stdio_tools, name) {
                    Some(i) => &self.stdio_tools[i].tools,
                    None => {
                        return Vec::new();
                    },
                },
            },
        };
        let mut r: Vec<&Tool> = Vec::new();
        for i in 0..tools.len()
            invariant
                r.len() == i,
                forall|j: int| 0 <= j < i ==> *#[trigger] r@[j] == tools@[j],
        {
            r.push(&tools[i]);
        }
        r
    }

    /// Where a call of a tool by its name alone goes: to the first server that
    /// has the tool, servers reached over HTTP before those reached over event
    /// streams, and those before programs.
    pub open spec fn route(self, name: Seq<char>) -> Option<(Transport, Seq<char>)> {
        match first_with_tool(self.streamable_tools@, name, 0) {
            Some(i) => Some((Transport::HttpStreamable, self.streamable_tools@[i].server@)),
            None => match first_with_tool(self.sse_tools@, name, 0) {
                Some(i) => Some((Transport::Sse, self.sse_tools@[i].server@)),
                None => match first_with_tool(self.stdio_tools@, name, 0) {
                    Some(i) => Some((Transport::Stdio, self.stdio_tools@[i].server@)),
                    None => None,
                },
            },
        }
    }

    /// Where a call of a tool by its name alone goes.
    pub fn fallback_route(&self, tool_name: &str) -> (r: Result<FallbackRoute, String>)
        ensures
            match r {
                Ok(route) => self.route(tool_name@) == Some((route.transport, route.server@)),
                Err(e) => self.route(tool_name@) is None && e@ == "Tool '"@ + tool_name@
                    + "' not found"@,
            },
    {
        match find_tool(&self.streamable_tools, tool_name) {
            Some(i) => {
                return Ok(
                    FallbackRoute {
                        transport: Transport::HttpStreamable,
                        server: self.streamable_tools[i].server.clone(),
                    },
                );
            },
            None => (),
        }
        match find_tool(&self.sse_tools, tool_name) {
            Some(i) => {
                return Ok(
                    FallbackRoute {
                        transport: Transport::Sse,
                        server: self.sse_tools[i].server.clone(),
                    },
                );
            },
            None => (),
        }
        match find_tool(&self.stdio_tools, tool_name) {
            Some(i) => {
                return Ok(
                    FallbackRoute {
                        transport: Transport::Stdio,
                        server: self.stdio_tools[i].server.clone(),
                    },
                );
            },
            None => (),
        }
        let mut e = "Tool '".to_owned();
        e.append(tool_name);
        e.append("' not found");
        Err(e)
    }

    /// A call of a tool by its name alone, once its arguments were read: where
    /// it goes and what it is made with. Arguments that could not be read are
    /// told of first.
    pub fn routed_call(&self, tool_name: &str, read: Result<Json, String>) -> (r: Result<
        (FallbackRoute, Vec<Member>),
        String,
    >)
        ensures
            self.is_fallback_call(
                tool_name@,
                match read {
                    Ok(args) => Ok(args@),
                    Err(e) => Err(e@),
                },
                r,
            ),
    {
        let args = match read {
            Ok(args) => args,
            Err(e) => {
                let mut message = "Failed to parse arguments: ".to_owned();
                message.append(&e);
                return Err(message);
            },
        };
        let arguments = match args {
            Json::Object(members) => {
                proof {
                    lemma_member_docs(members@, members@.len() as int);
                    assert(member_docs(members@, members@.len() as int) =~= members_of(members@));
                }
                members
            },
            _ => {
                let none: Vec<Member> = Vec::new();
                assert(members_of(none@) =~= Seq::empty());
                none
            },
        };
        match self.fallback_route(tool_name) {
            Ok(route) => Ok((route, arguments)),
            Err(e) => Err(e),
        }
    }

    /// What a call of a tool by its name alone comes to before it is made,
    /// given what its arguments were read as.
    pub open spec fn is_fallback_call(
        self,
        tool_name: Seq<char>,
        read: Result<Doc, Seq<char>>,
        r: Result<(FallbackRoute, Vec<Member>), String>,
    ) -> bool {
        match read {
            Err(fault) => r matches Err(e) && e@ == "Failed to parse arguments: "@ + fault,
            Ok(args) => match r {
                Ok((route, arguments)) => {
                    &&& self.route(tool_name) == Some((route.transport, route.server@))
                    &&& members_of(arguments@) == match args {
                        Doc::Object(members) => members,
                        _ => Seq::empty(),
                    }
                },
                Err(e) => self.route(tool_name) is None && e@ == "Tool '"@ + tool_name
                    + "' not found"@,
            },
        }
    }

    /// A call of a tool by its name alone, its arguments given as text.
    pub fn fallback_call(&self, tool_name: &str, arguments: &str) -> (r: Result<
        (FallbackRoute, Vec<Member>),
        String,
    >)
        ensures
            self.is_fallback_call(tool_name@, json_read(arguments@), r),
    {
        self.routed_call(tool_name, read_json(arguments))
    }
}

proof fn lemma_first_with_tool(list: Seq<ServerTools>, name: Seq<char>, i: int)
    requires
        0 <= i <= list.len(),
    ensures
        match first_with_tool(list, name, i) {
            Some(k) => i <= k < list.len() && names_tool(list[k].tools@, name),
            None => forall|k: int| i <= k < list.len() ==> !names_tool(
                (#[trigger] list[k]).tools@,
                name,
            ),
        },
    decreases list.len() - i,
{
    if i < list.len() {
        lemma_first_with_tool(list, name, i + 1);
    }
}

/// A call by name finds a server exactly where some server has the tool, and
/// the server that it finds has it.
pub proof fn law_route_has_the_tool(manager: McpManager, transport: Transport, name: Seq<char>)
    ensures
        match first_with_tool(manager.tools_over(transport), name, 0) {
            Some(k) => 0 <= k < manager.tools_over(transport).len() && names_tool(
                manager.tools_over(transport)[k].tools@,
                name,
            ),
            None => forall|k: int|
                0 <= k < manager.tools_over(transport).len() ==> !names_tool(
                    (#[trigger] manager.tools_over(transport)[k]).tools@,
                    name,
                ),
        },
{
    lemma_first_with_tool(manager.tools_over(transport), name, 0);
}

} // verus!
