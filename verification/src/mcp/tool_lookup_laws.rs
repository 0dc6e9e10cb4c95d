//! What looking up tools is for: a call reaches a server that has the tool,
//! and no tool of any server is lost or made up.
use super::connections::Transport;
use super::glob::matches_glob;
use super::manager::{McpManager, ServerTools};
use super::schema_sanitize::members_of;
use super::tool_lookup::{
    first_with_tool, function_doc, function_schema, listed, named_by_server, names_of, names_tool,
    passes, schemas_of, server_place, some_matches, tools_in,
};
use super::types::Tool;
use crate::json::Doc;
use vstd::prelude::*;

verus! {

/// Whether one of a list of tools has a name.
pub open spec fn has_named(tools: Seq<Tool>, name: Seq<char>) -> bool {
    exists|j: int| 0 <= j < tools.len() && (#[trigger] tools[j]).name@ == name
}

/// Whether a list of servers has an entry under a server's name that holds a
/// tool of a name, where no entry before it holds one.
pub open spec fn first_offer(list: Seq<ServerTools>, server: Seq<char>, name: Seq<char>) -> bool {
    exists|k: int|
        {
            &&& 0 <= k < list.len()
            &&& (#[trigger] list[k]).server@ == server
            &&& has_named(list[k].tools@, name)
            &&& forall|i: int| 0 <= i < k ==> !has_named((#[trigger] list[i]).tools@, name)
        }
}

/// Whether no server of a list has a tool of a name.
pub open spec fn nowhere(list: Seq<ServerTools>, name: Seq<char>) -> bool {
    forall|k: int| 0 <= k < list.len() ==> !has_named((#[trigger] list[k]).tools@, name)
}

proof fn lemma_first(list: Seq<ServerTools>, name: Seq<char>, i: int)
    requires
        0 <= i <= list.len(),
    ensures
        match first_with_tool(list, name, i) {
            Some(k) => i <= k < list.len() && has_named(list[k].tools@, name) && (forall|h: int|
                i <= h < k ==> !has_named((#[trigger] list[h]).tools@, name)),
            None => forall|h: int|
                i <= h < list.len() ==> !has_named((#[trigger] list[h]).tools@, name),
        },
    decreases list.len() - i,
{
    if i < list.len() {
        assert(names_tool(list[i].tools@, name) == has_named(list[i].tools@, name));
        lemma_first(list, name, i + 1);
    }
}

/// Where a call by name is routed to a transport and a server, the tools kept
/// over that transport have an entry under that server's name that holds a
/// tool of the called name, and it is the first that does. Servers reached
/// over HTTP come before those reached over event streams, and those before
/// programs. No route is found exactly where no server has the tool.
pub proof fn law_call_reaches_a_server_with_the_tool(manager: McpManager, name: Seq<char>)
    ensures
        match manager.route(name) {
            Some((Transport::HttpStreamable, server)) => first_offer(
                manager.streamable_tools@,
                server,
                name,
            ),
            Some((Transport::Sse, server)) => {
                &&& first_offer(manager.sse_tools@, server, name)
                &&& nowhere(manager.streamable_tools@, name)
            },
            Some((Transport::Stdio, server)) => {
                &&& first_offer(manager.stdio_tools@, server, name)
                &&& nowhere(manager.streamable_tools@, name)
                &&& nowhere(manager.sse_tools@, name)
            },
            None => {
                &&& nowhere(manager.streamable_tools@, name)
                &&& nowhere(manager.sse_tools@, name)
                &&& nowhere(manager.stdio_tools@, name)
            },
        },
{
    lemma_first(manager.streamable_tools@, name, 0);
    lemma_first(manager.sse_tools@, name, 0);
    lemma_first(manager.stdio_tools@, name, 0);
    let found = manager.route(name)->0;
    match first_with_tool(manager.streamable_tools@, name, 0) {
        Some(k) => {
            assert(manager.streamable_tools@[k].server@ == found.1);
        },
        None => match first_with_tool(manager.sse_tools@, name, 0) {
            Some(k) => {
                assert(manager.sse_tools@[k].server@ == found.1);
            },
            None => match first_with_tool(manager.stdio_tools@, name, 0) {
                Some(k) => {
                    assert(manager.stdio_tools@[k].server@ == found.1);
                },
                None => {},
            },
        },
    }
}

/// The tools kept over a transport are those of its own list.
pub proof fn law_transports_have_their_own_lists(manager: McpManager)
    ensures
        manager.tools_over(Transport::HttpStreamable) == manager.streamable_tools@,
        manager.tools_over(Transport::Sse) == manager.sse_tools@,
        manager.tools_over(Transport::Stdio) == manager.stdio_tools@,
{
}

proof fn lemma_listed(list: Seq<ServerTools>, n: int)
    requires
        0 <= n <= list.len(),
    ensures
        forall|k: int, j: int|
            0 <= k < n && 0 <= j < list[k].tools@.len() ==> listed(list, n).contains(
                #[trigger] list[k].tools@[j],
            ),
        forall|i: int|
            0 <= i < listed(list, n).len() ==> held_by_one(list, #[trigger] listed(list, n)[i]),
    decreases n,
{
    if n > 0 {
        lemma_listed(list, n - 1);
        let before = listed(list, n - 1);
        let last = list[n - 1].tools@;
        let all = listed(list, n);
        assert forall|k: int, j: int| 0 <= k < n && 0 <= j < list[k].tools@.len() implies all.contains(
            #[trigger] list[k].tools@[j],
        ) by {
            if k < n - 1 {
                let i = choose|i: int| 0 <= i < before.len() && before[i] == list[k].tools@[j];
                assert(all[i] == before[i]);
            } else {
                assert(all[before.len() + j] == last[j]);
            }
        }
        assert forall|i: int| 0 <= i < all.len() implies held_by_one(list, #[trigger] all[i]) by {
            if i < before.len() {
                assert(all[i] == before[i]);
            } else {
                assert(all[i] == list[n - 1].tools@[i - before.len()]);
            }
        }
    }
}

/// Whether an entry of a list holds a tool.
pub open spec fn held_by_one(list: Seq<ServerTools>, tool: Tool) -> bool {
    exists|k: int, j: int|
        0 <= k < list.len() && 0 <= j < list[k].tools@.len() && #[trigger] list[k].tools@[j] == tool
}

/// The tools of a run are exactly those that some server of some transport
/// has.
pub proof fn law_every_tool_is_listed(manager: McpManager, tool: Tool)
    ensures
        manager.all_tools().contains(tool) <==> held_by_one(manager.streamable_tools@, tool)
            || held_by_one(manager.sse_tools@, tool) || held_by_one(manager.stdio_tools@, tool),
{
    let a = manager.streamable_tools@;
    let b = manager.sse_tools@;
    let c = manager.stdio_tools@;
    lemma_listed(a, a.len() as int);
    lemma_listed(b, b.len() as int);
    lemma_listed(c, c.len() as int);
    let (la, lb, lc) = (tools_in(a), tools_in(b), tools_in(c));
    let all = manager.all_tools();
    if all.contains(tool) {
        let i = choose|i: int| 0 <= i < all.len() && all[i] == tool;
        if i < la.len() {
            assert(all[i] == la[i]);
        } else if i < la.len() + lb.len() {
            assert(all[i] == lb[i - la.len()]);
        } else {
            assert(all[i] == lc[i - la.len() - lb.len()]);
        }
    }
    if la.contains(tool) {
        let i = choose|i: int| 0 <= i < la.len() && la[i] == tool;
        assert(all[i] == tool);
    }
    if lb.contains(tool) {
        let i = choose|i: int| 0 <= i < lb.len() && lb[i] == tool;
        assert(all[la.len() + i] == tool);
    }
    if lc.contains(tool) {
        let i = choose|i: int| 0 <= i < lc.len() && lc[i] == tool;
        assert(all[la.len() + lb.len() + i] == tool);
    }
}

proof fn lemma_schemas(tools: Seq<Tool>, filter: Option<Seq<String>>, n: int)
    requires
        0 <= n <= tools.len(),
    ensures
        schemas_of(tools, filter, n).len() <= n,
        forall|i: int|
            0 <= i < n && passes(filter, (#[trigger] tools[i]).name@) ==> schemas_of(
                tools,
                filter,
                n,
            ).contains(function_schema(tools[i])),
        forall|s: Seq<char>| #[trigger]
            schemas_of(tools, filter, n).contains(s) ==> exists|i: int|
                0 <= i < n && passes(filter, (#[trigger] tools[i]).name@) && s == function_schema(
                    tools[i],
                ),
    decreases n,
{
    if n > 0 {
        lemma_schemas(tools, filter, n - 1);
        let before = schemas_of(tools, filter, n - 1);
        let all = schemas_of(tools, filter, n);
        assert forall|i: int|
            0 <= i < n && passes(filter, (#[trigger] tools[i]).name@) implies all.contains(
            function_schema(tools[i]),
        ) by {
            if i < n - 1 {
                let s = function_schema(tools[i]);
                let k = choose|k: int| 0 <= k < before.len() && before[k] == s;
                assert(all[k] == s);
            } else {
                assert(all[all.len() - 1] == function_schema(tools[i]));
            }
        }
        assert forall|s: Seq<char>| #[trigger] all.contains(s) implies exists|i: int|
            0 <= i < n && passes(filter, (#[trigger] tools[i]).name@) && s == function_schema(
                tools[i],
            ) by {
            let k = choose|k: int| 0 <= k < all.len() && all[k] == s;
            if k < before.len() {
                assert(before[k] == s);
                assert(before.contains(s));
            } else {
                assert(s == function_schema(tools[n - 1]));
            }
        }
    }
}

/// Without a filter, each tool's schema is given; with one, exactly the
/// schemas of tools that one of the patterns matches.
pub proof fn law_filter_chooses_the_schemas(tools: Seq<Tool>, filter: Option<Seq<String>>)
    ensures
        forall|i: int|
            0 <= i < tools.len() && (filter matches Some(patterns) ==> exists|p: int|
                0 <= p < patterns.len() && matches_glob(
                    (#[trigger] patterns[p])@,
                    tools[i].name@,
                )) ==> schemas_of(tools, filter, tools.len() as int).contains(
                function_schema(#[trigger] tools[i]),
            ),
        forall|s: Seq<char>| #[trigger]
            schemas_of(tools, filter, tools.len() as int).contains(s) ==> exists|i: int|
                0 <= i < tools.len() && s == function_schema(#[trigger] tools[i]) && (
                filter matches Some(patterns) ==> exists|p: int|
                    0 <= p < patterns.len() && matches_glob(
                        (#[trigger] patterns[p])@,
                        tools[i].name@,
                    )),
{
    lemma_schemas(tools, filter, tools.len() as int);
    let all = schemas_of(tools, filter, tools.len() as int);
    assert forall|s: Seq<char>| #[trigger] all.contains(s) implies exists|i: int|
        0 <= i < tools.len() && s == function_schema(#[trigger] tools[i]) && (
        filter matches Some(patterns) ==> exists|p: int|
            0 <= p < patterns.len() && matches_glob((#[trigger] patterns[p])@, tools[i].name@)) by {
        let i = choose|i: int|
            0 <= i < tools.len() && passes(filter, (#[trigger] tools[i]).name@) && s
                == function_schema(tools[i]);
        if filter is Some {
            assert(some_matches(filter->0, tools[i].name@));
        }
    }
}

/// A tool offered to a model says that it is a function, and carries the
/// tool's own name, description and schema; so no two tools that differ in
/// one of these are offered alike.
pub proof fn law_function_tells_the_tool(a: Tool, b: Tool)
    requires
        function_doc(a) == function_doc(b),
    ensures
        function_doc(a) matches Doc::Object(outer) && outer.contains(
            ("type"@, Doc::Text("function"@)),
        ) && (exists|inner: Seq<(Seq<char>, Doc)>| #[trigger]
            outer.contains(("function"@, Doc::Object(inner))) && inner.contains(
                ("name"@, Doc::Text(a.name@)),
            ) && inner.contains(("parameters"@, Doc::Object(members_of(a.input_schema@))))
                && inner.contains(
                (
                    "description"@,
                    match a.description {
                        Some(text) => Doc::Text(text@),
                        None => Doc::Null,
                    },
                ),
            )),
        a.name@ == b.name@,
        members_of(a.input_schema@) == members_of(b.input_schema@),
        match (a.description, b.description) {
            (Some(x), Some(y)) => x@ == y@,
            (None, None) => true,
            _ => false,
        },
{
    let outer = function_doc(a)->Object_0;
    let other = function_doc(b)->Object_0;
    assert(outer[0] == ("type"@, Doc::Text("function"@)));
    let inner = outer[1].1->Object_0;
    let inner_b = other[1].1->Object_0;
    assert(inner == inner_b);
    assert(outer.contains(("function"@, Doc::Object(inner))));
    assert(inner[0] == ("name"@, Doc::Text(a.name@)));
    assert(inner[2] == ("parameters"@, Doc::Object(members_of(a.input_schema@))));
    assert(inner[1].0 == "description"@);
    assert(inner.contains(inner[0]) && inner.contains(inner[1]) && inner.contains(inner[2]));
    assert(inner_b[0] == ("name"@, Doc::Text(b.name@)));
    assert(inner_b[2] == ("parameters"@, Doc::Object(members_of(b.input_schema@))));
    assert(inner[1] == inner_b[1]);
}

proof fn lemma_server_place(list: Seq<ServerTools>, name: Seq<char>, i: int)
    requires
        0 <= i <= list.len(),
    ensures
        match server_place(list, name, i) {
            Some(k) => i <= k < list.len() && list[k].server@ == name,
            None => forall|h: int| i <= h < list.len() ==> (#[trigger] list[h]).server@ != name,
        },
    decreases list.len() - i,
{
    if i < list.len() {
        lemma_server_place(list, name, i + 1);
    }
}

/// Whether a list has an entry of a server with these tools.
pub open spec fn keeps(list: Seq<ServerTools>, server: Seq<char>, tools: Seq<Tool>) -> bool {
    exists|k: int|
        0 <= k < list.len() && (#[trigger] list[k]).server@ == server && list[k].tools@ == tools
}

/// Whether a list has an entry of a server.
pub open spec fn knows(list: Seq<ServerTools>, server: Seq<char>) -> bool {
    exists|k: int| 0 <= k < list.len() && (#[trigger] list[k]).server@ == server
}

/// The tools given for a server are those kept under its name, and a server
/// that nothing is kept of has none.
pub proof fn law_server_has_its_own_tools(manager: McpManager, server: Seq<char>)
    ensures
        if knows(manager.streamable_tools@, server) {
            keeps(manager.streamable_tools@, server, manager.tools_of_server(server))
        } else if knows(manager.sse_tools@, server) {
            keeps(manager.sse_tools@, server, manager.tools_of_server(server))
        } else if knows(manager.stdio_tools@, server) {
            keeps(manager.stdio_tools@, server, manager.tools_of_server(server))
        } else {
            manager.tools_of_server(server).len() == 0
        },
{
    lemma_server_place(manager.streamable_tools@, server, 0);
    lemma_server_place(manager.sse_tools@, server, 0);
    lemma_server_place(manager.stdio_tools@, server, 0);
}

/// A server is named with the names of the tools of its last entry, and every
/// server that has an entry is named.
pub proof fn law_names_by_server(list: Seq<ServerTools>, n: int, server: Seq<char>)
    requires
        0 <= n <= list.len(),
    ensures
        named_by_server(list, n).dom().contains(server) <==> knows(list.take(n), server),
        forall|k: int|
            0 <= k < n && (#[trigger] list[k]).server@ == server && (forall|h: int|
                k < h < n ==> (#[trigger] list[h]).server@ != server) ==> named_by_server(
                list,
                n,
            )[server] == Seq::new(list[k].tools@.len(), |t: int| list[k].tools@[t].name@),
    decreases n,
{
    if n > 0 {
        law_names_by_server(list, n - 1, server);
        let (small, large) = (list.take(n - 1), list.take(n));
        if knows(small, server) {
            let k = choose|k: int| 0 <= k < small.len() && (#[trigger] small[k]).server@ == server;
            assert(large[k].server@ == server);
        }
        if knows(large, server) && list[n - 1].server@ != server {
            let k = choose|k: int| 0 <= k < large.len() && (#[trigger] large[k]).server@ == server;
            assert(small[k].server@ == server);
        }
        if list[n - 1].server@ == server {
            assert(large[n - 1].server@ == server);
        }
        assert forall|k: int|
            0 <= k < n && (#[trigger] list[k]).server@ == server && (forall|h: int|
                k < h < n ==> (#[trigger] list[h]).server@
                    != server) implies named_by_server(list, n)[server] == Seq::new(
            list[k].tools@.len(),
            |t: int| list[k].tools@[t].name@,
        ) by {
            if k == n - 1 {
                assert(names_of(list[k].tools@) =~= Seq::new(
                    list[k].tools@.len(),
                    |t: int| list[k].tools@[t].name@,
                ));
            } else {
                assert(list[n - 1].server@ != server);
            }
        }
    }
}

} // verus!
