//! The tool servers of a run, and the tools they offer.
use super::connections::{
    by_name, connection_reason, failure_reason, report_all, reports_of, said_in, ConnectFailure,
    ConnectionStatus, McpConfig, McpServerStatus, NamedServer, ServerInfo, Transport,
};
use super::conversion::{collected, offered_of, sanitize_and_collect_tools};
use super::types::Tool;
use crate::text::same;
use vstd::prelude::*;

verus! {

/// The tools of one server.
#[derive(Debug)]
pub struct ServerTools {
    pub server: String,
    pub tools: Vec<Tool>,
}

/// The tool servers of a run.
#[derive(Debug)]
pub struct McpManager {
    pub server_info: Vec<ServerInfo>,
    pub streamable_tools: Vec<ServerTools>,
    pub sse_tools: Vec<ServerTools>,
    pub stdio_tools: Vec<ServerTools>,
    /// Whether schemas are made fit for strict function calling.
    pub sanitize_schemas: bool,
}

// ---------------------------------------------------------------------------
// Connecting
// ---------------------------------------------------------------------------

/// Whether `info` is what is known of a server after connecting to it.
pub open spec fn info_after(
    info: ServerInfo,
    server: NamedServer,
    outcome: Result<Vec<Tool>, ConnectFailure>,
    sanitize_schemas: bool,
) -> bool {
    &&& info.name@ == server.name@
    &&& info.description == server.config.note()
    &&& info.transport@ == server.config.kind().name()
    &&& match outcome {
        Ok(tools) => {
            &&& info.tools_count == offered_of(tools@, sanitize_schemas).len()
            &&& info.status is Connected
        },
        Err(failure) => {
            &&& info.tools_count == 0
            &&& info.status matches ConnectionStatus::Failed(reason) && reason@
                == "Connection failed: "@ + failure_reason(
                server.config.kind(),
                server.name@,
                failure,
            )
        },
    }
}

/// What is known of the other servers.
pub open spec fn other_infos(infos: Seq<ServerInfo>, name: Seq<char>) -> Seq<ServerInfo> {
    infos.filter(|info: ServerInfo| info.name@ != name)
}

/// The tools of the other servers.
pub open spec fn other_tools(list: Seq<ServerTools>, name: Seq<char>) -> Seq<ServerTools> {
    list.filter(|s: ServerTools| s.server@ != name)
}

/// Forgets what is known of a server.
fn forget_info(infos: &mut Vec<ServerInfo>, name: &str)
    ensures
        final(infos)@ == other_infos(old(infos)@, name@),
{
    let ghost all = infos@;
    let ghost keep = |info: ServerInfo| info.name@ != name@;
    let ghost mut done: int = 0;
    let mut rest: Vec<ServerInfo> = Vec::new();
    std::mem::swap(&mut rest, infos);
    proof {
        reveal(Seq::filter);
        assert(all.take(0).filter(keep) =~= Seq::empty());
    }
    while rest.len() > 0
        invariant
            keep == (|info: ServerInfo| info.name@ != name@),
            0 <= done <= all.len(),
            rest@ == all.skip(done),
            infos@ == all.take(done).filter(keep),
        decreases rest.len(),
    {
        proof {
            reveal(Seq::filter);
            assert(all.take(done + 1).drop_last() =~= all.take(done));
            assert(all.take(done + 1).last() == all[done]);
        }
        let info = rest.remove(0);
        assert(rest@ =~= all.skip(done + 1));
        if !same(&info.name, name) {
            infos.push(info);
        }
        proof {
            done = done + 1;
        }
    }
    assert(all.take(all.len() as int) =~= all);
}

/// Forgets the tools of a server.
fn forget_tools(list: &mut Vec<ServerTools>, name: &str)
    ensures
        final(list)@ == other_tools(old(list)@, name@),
{
    let ghost all = list@;
    let ghost keep = |s: ServerTools| s.server@ != name@;
    let ghost mut done: int = 0;
    let mut rest: Vec<ServerTools> = Vec::new();
    std::mem::swap(&mut rest, list);
    proof {
        reveal(Seq::filter);
        assert(all.take(0).filter(keep) =~= Seq::empty());
    }
    while rest.len() > 0
        invariant
            keep == (|s: ServerTools| s.server@ != name@),
            0 <= done <= all.len(),
            rest@ == all.skip(done),
            list@ == all.take(done).filter(keep),
        decreases rest.len(),
    {
        proof {
            reveal(Seq::filter);
            assert(all.take(done + 1).drop_last() =~= all.take(done));
            assert(all.take(done + 1).last() == all[done]);
        }
        let entry = rest.remove(0);
        assert(rest@ =~= all.skip(done + 1));
        if !same(&entry.server, name) {
            list.push(entry);
        }
        proof {
            done = done + 1;
        }
    }
    assert(all.take(all.len() as int) =~= all);
}

/// Whether `after` is a list of tools once a server's have been stored in it.
pub open spec fn stored(
    after: Seq<ServerTools>,
    before: Seq<ServerTools>,
    name: Seq<char>,
    tools: Seq<Tool>,
    sanitize_schemas: bool,
) -> bool {
    &&& after.len() == other_tools(before, name).len() + 1
    &&& after.drop_last() == other_tools(before, name)
    &&& after.last().server@ == name
    &&& collected(after.last().tools@, tools, sanitize_schemas)
}

fn store(list: &mut Vec<ServerTools>, name: &str, tools: Vec<Tool>, sanitize_schemas: bool) -> (r:
    usize)
    ensures
        stored(final(list)@, old(list)@, name@, tools@, sanitize_schemas),
        r == final(list)@.last().tools@.len(),
{
    let kept = sanitize_and_collect_tools(tools, sanitize_schemas);
    let count: usize = kept.len();
    forget_tools(list, name);
    let ghost others = list@;
    list.push(ServerTools { server: name.to_owned(), tools: kept });
    assert(list@.drop_last() =~= others);
    count
}

impl McpManager {
    /// A manager that sanitizes schemas.
    pub fn new() -> (r: McpManager)
        ensures
            r.sanitize_schemas,
            r.is_empty(),
    {
        McpManager::with_sanitization(true)
    }

    /// Whether no server is known.
    pub open spec fn is_empty(self) -> bool {
        &&& self.server_info@.len() == 0
        &&& self.streamable_tools@.len() == 0
        &&& self.sse_tools@.len() == 0
        &&& self.stdio_tools@.len() == 0
    }

    /// A manager that knows of no server.
    pub fn with_sanitization(sanitize_schemas: bool) -> (r: McpManager)
        ensures
            r.sanitize_schemas == sanitize_schemas,
            r.is_empty(),
    {
        McpManager {
            server_info: Vec::new(),
            streamable_tools: Vec::new(),
            sse_tools: Vec::new(),
            stdio_tools: Vec::new(),
            sanitize_schemas,
        }
    }

    /// The tools of the servers that are reached in one way.
    pub open spec fn tools_over(self, transport: Transport) -> Seq<ServerTools> {
        match transport {
            Transport::HttpStreamable => self.streamable_tools@,
            Transport::Sse => self.sse_tools@,
            Transport::Stdio => self.stdio_tools@,
        }
    }

    /// Replaces what is known of a server.
    pub fn set_server_info(&mut self, info: ServerInfo)
        ensures
            final(self).server_info@ == other_infos(old(self).server_info@, info.name@).push(info),
            final(self).sanitize_schemas == old(self).sanitize_schemas,
            forall|t: Transport| #[trigger] final(self).tools_over(t) == old(self).tools_over(t),
    {
        forget_info(&mut self.server_info, &info.name);
        self.server_info.push(info);
    }

    /// Takes in what came of connecting to a server: a failure is kept as the
    /// server's status, and does not end the run.
    pub fn record_connection(
        &mut self,
        server: &NamedServer,
        outcome: Result<Vec<Tool>, ConnectFailure>,
    )
        ensures
            final(self).sanitize_schemas == old(self).sanitize_schemas,
            final(self).server_info@.len() == other_infos(
                old(self).server_info@,
                server.name@,
            ).len() + 1,
            final(self).server_info@.drop_last() == other_infos(
                old(self).server_info@,
                server.name@,
            ),
            info_after(
                final(self).server_info@.last(),
                *server,
                outcome,
                old(self).sanitize_schemas,
            ),
            match outcome {
                Ok(tools) => {
                    &&& stored(
                        final(self).tools_over(server.config.kind()),
                        old(self).tools_over(server.config.kind()),
                        server.name@,
                        tools@,
                        old(self).sanitize_schemas,
                    )
                    &&& forall|t: Transport|
                        t != server.config.kind() ==> #[trigger] final(self).tools_over(t) == old(
                            self,
                        ).tools_over(t)
                },
                Err(_) => forall|t: Transport| #[trigger]
                    final(self).tools_over(t) == old(self).tools_over(t),
            },
    {
        let transport = server.config.transport();
        let (tools_count, status) = match outcome {
            Ok(tools) => {
                let count = match transport {
                    Transport::HttpStreamable => store(
                        &mut self.streamable_tools,
                        &server.name,
                        tools,
                        self.sanitize_schemas,
                    ),
                    Transport::Sse => store(
                        &mut self.sse_tools,
                        &server.name,
                        tools,
                        self.sanitize_schemas,
                    ),
                    Transport::Stdio => store(
                        &mut self.stdio_tools,
                        &server.name,
                        tools,
                        self.sanitize_schemas,
                    ),
                };
                (count, ConnectionStatus::Connected)
            },
            Err(failure) => {
                let mut reason = "Connection failed: ".to_owned();
                reason.append(&connection_reason(transport, &server.name, &failure));
                (0, ConnectionStatus::Failed(reason))
            },
        };
        let info = ServerInfo {
            name: server.name.clone(),
            description: server.config.description(),
            tools_count,
            status,
            transport: transport.label().to_owned(),
        };
        self.set_server_info(info);
        assert(self.server_info@.drop_last() =~= other_infos(
            old(self).server_info@,
            server.name@,
        ));
    }

    /// What is reported of the servers, in the order of their names.
    pub fn server_status_snapshot(&self) -> (r: Vec<McpServerStatus>)
        ensures
            by_name(said_in(r@)),
            said_in(r@).to_multiset() == reports_of(self.server_info@).to_multiset(),
    {
        report_all(&self.server_info)
    }
}

// ---------------------------------------------------------------------------
// All servers of a configuration
// ---------------------------------------------------------------------------

/// Whether no two servers have one name.
pub open spec fn distinct_names(servers: Seq<NamedServer>) -> bool {
    forall|i: int, j: int|
        0 <= i < j < servers.len() ==> (#[trigger] servers[i]).name@ != (#[trigger] servers[j]).name@
}

/// Whether a list holds the tools of a server, as they are kept.
pub open spec fn holds_tools(
    list: Seq<ServerTools>,
    name: Seq<char>,
    tools: Seq<Tool>,
    sanitize_schemas: bool,
) -> bool {
    exists|j: int|
        0 <= j < list.len() && (#[trigger] list[j]).server@ == name && collected(
            list[j].tools@,
            tools,
            sanitize_schemas,
        )
}

/// Whether a server of a name was connected to in one way.
pub open spec fn reached(
    name: Seq<char>,
    transport: Transport,
    servers: Seq<NamedServer>,
    outcomes: Seq<Result<Vec<Tool>, ConnectFailure>>,
) -> bool {
    exists|i: int|
        0 <= i < servers.len() && (#[trigger] servers[i]).name@ == name && servers[i].config.kind()
            == transport && outcomes[i] is Ok
}

/// Whether every entry of a list comes from one of the servers that were
/// connected to in one way.
pub open spec fn comes_from(
    list: Seq<ServerTools>,
    transport: Transport,
    servers: Seq<NamedServer>,
    outcomes: Seq<Result<Vec<Tool>, ConnectFailure>>,
) -> bool {
    forall|j: int|
        0 <= j < list.len() ==> reached(
            (#[trigger] list[j]).server@,
            transport,
            servers,
            outcomes,
        )
}

/// Whether a manager is what connecting to the servers left: each server is
/// known by what came of it, in order, and the tools of those that were
/// reached are kept under the way they are reached.
pub open spec fn connected_to(
    manager: McpManager,
    servers: Seq<NamedServer>,
    outcomes: Seq<Result<Vec<Tool>, ConnectFailure>>,
) -> bool {
    &&& manager.server_info@.len() == servers.len()
    &&& forall|i: int|
        0 <= i < servers.len() ==> info_after(
            #[trigger] manager.server_info@[i],
            servers[i],
            outcomes[i],
            manager.sanitize_schemas,
        )
    &&& forall|i: int|
        #![trigger servers[i]]
        0 <= i < servers.len() && outcomes[i] is Ok ==> holds_tools(
            manager.tools_over(servers[i].config.kind()),
            servers[i].name@,
            outcomes[i]->Ok_0@,
            manager.sanitize_schemas,
        )
    &&& forall|t: Transport| comes_from(#[trigger] manager.tools_over(t), t, servers, outcomes)
}

proof fn lemma_no_info_to_forget(infos: Seq<ServerInfo>, name: Seq<char>)
    requires
        forall|i: int| 0 <= i < infos.len() ==> (#[trigger] infos[i]).name@ != name,
    ensures
        other_infos(infos, name) == infos,
    decreases infos.len(),
{
    reveal(Seq::filter);
    if infos.len() > 0 {
        lemma_no_info_to_forget(infos.drop_last(), name);
        assert(infos.drop_last().push(infos.last()) =~= infos);
    }
}

proof fn lemma_no_tools_to_forget(list: Seq<ServerTools>, name: Seq<char>)
    requires
        forall|i: int| 0 <= i < list.len() ==> (#[trigger] list[i]).server@ != name,
    ensures
        other_tools(list, name) == list,
    decreases list.len(),
{
    reveal(Seq::filter);
    if list.len() > 0 {
        lemma_no_tools_to_forget(list.drop_last(), name);
        assert(list.drop_last().push(list.last()) =~= list);
    }
}

/// One server more, of another name.
proof fn lemma_one_more_server(
    before: McpManager,
    after: McpManager,
    servers: Seq<NamedServer>,
    outcomes: Seq<Result<Vec<Tool>, ConnectFailure>>,
    n: int,
)
    requires
        0 <= n < servers.len(),
        servers.len() == outcomes.len(),
        distinct_names(servers),
        connected_to(before, servers.take(n), outcomes.take(n)),
        after.sanitize_schemas == before.sanitize_schemas,
        after.server_info@.len() == other_infos(before.server_info@, servers[n].name@).len() + 1,
        after.server_info@.drop_last() == other_infos(before.server_info@, servers[n].name@),
        info_after(
            after.server_info@.last(),
            servers[n],
            outcomes[n],
            before.sanitize_schemas,
        ),
        match outcomes[n] {
            Ok(tools) => {
                &&& stored(
                    after.tools_over(servers[n].config.kind()),
                    before.tools_over(servers[n].config.kind()),
                    servers[n].name@,
                    tools@,
                    before.sanitize_schemas,
                )
                &&& forall|t: Transport|
                    t != servers[n].config.kind() ==> #[trigger] after.tools_over(t)
                        == before.tools_over(t)
            },
            Err(_) => forall|t: Transport| #[trigger] after.tools_over(t) == before.tools_over(t),
        },
    ensures
        connected_to(after, servers.take(n + 1), outcomes.take(n + 1)),
{
    let name = servers[n].name@;
    let kind = servers[n].config.kind();
    let old_servers = servers.take(n);
    let old_outcomes = outcomes.take(n);
    let now = servers.take(n + 1);
    let now_outcomes = outcomes.take(n + 1);
    assert forall|i: int| 0 <= i < before.server_info@.len() implies (
    #[trigger] before.server_info@[i]).name@ != name by {
        assert(info_after(
            before.server_info@[i],
            old_servers[i],
            old_outcomes[i],
            before.sanitize_schemas,
        ));
        assert(servers[i].name@ != servers[n].name@);
    }
    lemma_no_info_to_forget(before.server_info@, name);
    assert forall|t: Transport, j: int|
        0 <= j < before.tools_over(t).len() implies (#[trigger] before.tools_over(t)[j]).server@
        != name by {
        assert(comes_from(before.tools_over(t), t, old_servers, old_outcomes));
        let i = choose|i: int|
            0 <= i < old_servers.len() && (#[trigger] old_servers[i]).name@ == before.tools_over(
                t,
            )[j].server@ && old_servers[i].config.kind() == t && old_outcomes[i] is Ok;
        assert(servers[i].name@ != servers[n].name@);
    }
    lemma_no_tools_to_forget(before.tools_over(kind), name);
    assert forall|i: int| 0 <= i < now.len() implies info_after(
        #[trigger] after.server_info@[i],
        now[i],
        now_outcomes[i],
        after.sanitize_schemas,
    ) by {
        if i < n {
            assert(after.server_info@.drop_last()[i] == before.server_info@[i]);
            assert(info_after(
                before.server_info@[i],
                old_servers[i],
                old_outcomes[i],
                before.sanitize_schemas,
            ));
        }
    }
    assert forall|i: int|
        #![trigger now[i]]
        0 <= i < now.len() && now_outcomes[i] is Ok implies holds_tools(
        after.tools_over(now[i].config.kind()),
        now[i].name@,
        now_outcomes[i]->Ok_0@,
        after.sanitize_schemas,
    ) by {
        let t = now[i].config.kind();
        let list = after.tools_over(t);
        if i < n {
            let earlier = before.tools_over(t);
            assert(now[i] == old_servers[i] && now_outcomes[i] == old_outcomes[i]);
            assert(holds_tools(
                earlier,
                old_servers[i].name@,
                old_outcomes[i]->Ok_0@,
                before.sanitize_schemas,
            ));
            let j = choose|j: int|
                0 <= j < earlier.len() && (#[trigger] earlier[j]).server@ == old_servers[i].name@
                    && collected(
                    earlier[j].tools@,
                    old_outcomes[i]->Ok_0@,
                    before.sanitize_schemas,
                );
            if outcomes[n] is Ok && t == kind {
                assert(list.drop_last()[j] == earlier[j]);
            }
            assert(list[j] == earlier[j]);
        } else {
            assert(list[list.len() - 1] == list.last());
        }
    }
    assert forall|t: Transport| comes_from(
        #[trigger] after.tools_over(t),
        t,
        now,
        now_outcomes,
    ) by {
        let list = after.tools_over(t);
        let earlier = before.tools_over(t);
        assert(comes_from(earlier, t, old_servers, old_outcomes));
        assert forall|j: int| 0 <= j < list.len() implies reached(
            (#[trigger] list[j]).server@,
            t,
            now,
            now_outcomes,
        ) by {
            if j < earlier.len() {
                if outcomes[n] is Ok && t == kind {
                    assert(list.drop_last()[j] == earlier[j]);
                }
                assert(list[j] == earlier[j]);
                let i = choose|i: int|
                    0 <= i < old_servers.len() && (#[trigger] old_servers[i]).name@
                        == earlier[j].server@ && old_servers[i].config.kind() == t
                        && old_outcomes[i] is Ok;
                assert(now[i] == old_servers[i] && now_outcomes[i] == old_outcomes[i]);
            } else {
                assert(list[j] == list.last());
                assert(now[n] == servers[n] && now_outcomes[n] == outcomes[n]);
            }
        }
    }
}

impl McpManager {
    /// The manager after connecting to every configured server, given what
    /// came of each. A server that failed leaves the others as they are.
    pub fn initialize_from_config(
        config: &McpConfig,
        outcomes: Vec<Result<Vec<Tool>, ConnectFailure>>,
    ) -> (r: McpManager)
        requires
            outcomes.len() == config.servers.len(),
            distinct_names(config.servers@),
        ensures
            r.sanitize_schemas == config.sanitize_schemas,
            connected_to(r, config.servers@, outcomes@),
    {
        let ghost all = outcomes@;
        let mut outcomes = outcomes;
        let mut manager = McpManager::with_sanitization(config.sanitize_schemas);
        for i in 0..config.servers.len()
            invariant
                all.len() == config.servers.len(),
                distinct_names(config.servers@),
                outcomes@ == all.skip(i as int),
                manager.sanitize_schemas == config.sanitize_schemas,
                connected_to(manager, config.servers@.take(i as int), all.take(i as int)),
        {
            let outcome = outcomes.remove(0);
            assert(outcomes@ =~= all.skip(i + 1));
            let ghost before = manager;
            manager.record_connection(&config.servers[i], outcome);
            proof {
                lemma_one_more_server(before, manager, config.servers@, all, i as int);
            }
        }
        assert(config.servers@.take(config.servers.len() as int) =~= config.servers@);
        assert(all.take(all.len() as int) =~= all);
        manager
    }
}

} // verus!
