//! Configured tool servers, and what came of connecting to them.
use super::headers::Header;
use crate::text::search::{contains, contains_text};
use crate::text::sorting::{le, lemma_text_le_total, lemma_text_le_transitive, text_le};
use vstd::prelude::*;

verus! {

/// How a server is reached.
#[derive(Debug, Clone, Copy, PartialEq, Eq, Structural)]
pub enum Transport {
    HttpStreamable,
    Sse,
    Stdio,
}

/// A server as it is configured.
#[derive(Debug)]
#[allow(inconsistent_fields)]
pub enum McpServerConfig {
    HttpStreamable { url: String, headers: Vec<Header>, description: Option<String> },
    Sse { url: String, headers: Vec<Header>, description: Option<String> },
    /// A program that is started, with the environment it is given.
    Stdio {
        cmd: Vec<String>,
        args: Vec<String>,
        env: Vec<(String, String)>,
        description: Option<String>,
    },
}

/// A server by the name it is configured under.
#[derive(Debug)]
pub struct NamedServer {
    pub name: String,
    pub config: McpServerConfig,
}

/// The configured servers.
#[derive(Debug)]
pub struct McpConfig {
    pub sanitize_schemas: bool,
    pub servers: Vec<NamedServer>,
}

impl McpServerConfig {
    /// How the server is reached.
    pub open spec fn kind(self) -> Transport {
        match self {
            McpServerConfig::HttpStreamable { .. } => Transport::HttpStreamable,
            McpServerConfig::Sse { .. } => Transport::Sse,
            McpServerConfig::Stdio { .. } => Transport::Stdio,
        }
    }

    /// What the configuration says of the server.
    pub open spec fn note(self) -> Option<String> {
        match self {
            McpServerConfig::HttpStreamable { description, .. } => description,
            McpServerConfig::Sse { description, .. } => description,
            McpServerConfig::Stdio { description, .. } => description,
        }
    }

    /// How the server is reached.
    pub fn transport(&self) -> (r: Transport)
        ensures
            r == self.kind(),
    {
        match self {
            McpServerConfig::HttpStreamable { .. } => Transport::HttpStreamable,
            McpServerConfig::Sse { .. } => Transport::Sse,
            McpServerConfig::Stdio { .. } => Transport::Stdio,
        }
    }

    /// What the configuration says of the server.
    pub fn description(&self) -> (r: Option<String>)
        ensures
            r == self.note(),
    {
        match self {
            McpServerConfig::HttpStreamable { description, .. } => description.clone(),
            McpServerConfig::Sse { description, .. } => description.clone(),
            McpServerConfig::Stdio { description, .. } => description.clone(),
        }
    }
}

impl Transport {
    /// The word for the transport in status reports.
    pub open spec fn name(self) -> Seq<char> {
        match self {
            Transport::HttpStreamable => "http_streamable"@,
            Transport::Sse => "sse"@,
            Transport::Stdio => "stdio"@,
        }
    }

    /// The word for the transport in status reports.
    pub fn label(self) -> (r: &'static str)
        ensures
            r@ == self.name(),
    {
        match self {
            Transport::HttpStreamable => "http_streamable",
            Transport::Sse => "sse",
            Transport::Stdio => "stdio",
        }
    }
}

// ---------------------------------------------------------------------------
// Why a connection failed
// ---------------------------------------------------------------------------

/// Where connecting to a server failed.
#[derive(Debug)]
pub enum ConnectFailure {
    /// The program could not be started.
    Spawn(String),
    /// The stream could not be opened.
    OpenStream(String),
    /// The session could not be set up.
    Establish(String),
    /// The tools could not be listed.
    Discover(String),
    /// The program has no name.
    EmptyCommand,
}

/// What is said of a failure, before it is told apart from a refusal.
pub open spec fn failure_said(
    transport: Transport,
    server_name: Seq<char>,
    failure: ConnectFailure,
) -> Seq<char> {
    match failure {
        ConnectFailure::EmptyCommand => "Empty command for STDIO server"@,
        ConnectFailure::Spawn(e) => "Failed to spawn MCP server process: "@ + e@,
        ConnectFailure::OpenStream(e) => e@,
        ConnectFailure::Establish(e) => establish_text(transport) + server_name + "': "@ + e@,
        ConnectFailure::Discover(e) => discover_text(transport) + server_name + "': "@ + e@,
    }
}

pub open spec fn establish_text(transport: Transport) -> Seq<char> {
    match transport {
        Transport::HttpStreamable => "Failed to connect to HTTP MCP server '"@,
        Transport::Sse => "Failed to establish SSE MCP connection to '"@,
        Transport::Stdio => "Failed to establish STDIO MCP connection to '"@,
    }
}

pub open spec fn discover_text(transport: Transport) -> Seq<char> {
    match transport {
        Transport::HttpStreamable => "Failed to discover tools from server '"@,
        Transport::Sse => "Failed to discover tools from SSE server '"@,
        Transport::Stdio => "Failed to discover tools from STDIO server '"@,
    }
}

/// Whether a failure is a refused login.
pub open spec fn is_unauthorized(said: Seq<char>) -> bool {
    contains_text(said, "401 Unauthorized"@) || contains_text(
        said,
        "HTTP status client error (401"@,
    )
}

/// What is said of a refused login.
pub open spec fn refused_login(kind: Seq<char>, server_name: Seq<char>) -> Seq<char> {
    kind + " MCP server '"@ + server_name
        + "' authentication failed (401 Unauthorized). Check that your headers, forwarded headers, and/or credentials are correct."@
}

/// The reason that a failure is given: a refused login is called that where
/// the server is reached over HTTP; anything else is said as it is.
pub open spec fn failure_reason(
    transport: Transport,
    server_name: Seq<char>,
    failure: ConnectFailure,
) -> Seq<char> {
    let said = failure_said(transport, server_name, failure);
    match transport {
        Transport::Stdio => said,
        Transport::HttpStreamable => if is_unauthorized(said) {
            refused_login("HTTP"@, server_name)
        } else {
            said
        },
        Transport::Sse => if is_unauthorized(said) {
            refused_login("SSE"@, server_name)
        } else {
            said
        },
    }
}

fn say_at(before: &str, server_name: &str, e: &str) -> (r: String)
    ensures
        r@ == before@ + server_name@ + "': "@ + e@,
{
    let mut r = before.to_owned();
    r.append(server_name);
    r.append("': ");
    r.append(e);
    r
}

fn say(transport: Transport, server_name: &str, failure: &ConnectFailure) -> (r: String)
    ensures
        r@ == failure_said(transport, server_name@, *failure),
{
    match failure {
        ConnectFailure::EmptyCommand => "Empty command for STDIO server".to_owned(),
        ConnectFailure::Spawn(e) => {
            let mut r = "Failed to spawn MCP server process: ".to_owned();
            r.append(e);
            r
        },
        ConnectFailure::OpenStream(e) => e.clone(),
        ConnectFailure::Establish(e) => match transport {
            Transport::HttpStreamable => say_at(
                "Failed to connect to HTTP MCP server '",
                server_name,
                e,
            ),
            Transport::Sse => say_at("Failed to establish SSE MCP connection to '", server_name, e),
            Transport::Stdio => say_at(
                "Failed to establish STDIO MCP connection to '",
                server_name,
                e,
            ),
        },
        ConnectFailure::Discover(e) => match transport {
            Transport::HttpStreamable => say_at(
                "Failed to discover tools from server '",
                server_name,
                e,
            ),
            Transport::Sse => say_at("Failed to discover tools from SSE server '", server_name, e),
            Transport::Stdio => say_at(
                "Failed to discover tools from STDIO server '",
                server_name,
                e,
            ),
        },
    }
}

fn say_refused(kind: &str, server_name: &str) -> (r: String)
    ensures
        r@ == refused_login(kind@, server_name@),
{
    let mut r = kind.to_owned();
    r.append(" MCP server '");
    r.append(server_name);
    r.append(
        "' authentication failed (401 Unauthorized). Check that your headers, forwarded headers, and/or credentials are correct.",
    );
    r
}

/// The reason that a failed connection is given.
pub fn connection_reason(transport: Transport, server_name: &str, failure: &ConnectFailure) -> (r:
    String)
    ensures
        r@ == failure_reason(transport, server_name@, *failure),
{
    let said = say(transport, server_name, failure);
    let unauthorized = contains(&said, "401 Unauthorized") || contains(
        &said,
        "HTTP status client error (401",
    );
    match transport {
        Transport::HttpStreamable => if unauthorized {
            return say_refused("HTTP", server_name);
        },
        Transport::Sse => if unauthorized {
            return say_refused("SSE", server_name);
        },
        Transport::Stdio => (),
    }
    said
}

/// The program to start for a server and what it is started with: the rest of
/// the command, then the arguments.
pub fn stdio_command(cmd: &Vec<String>, args: &Vec<String>) -> (r: Result<
    (String, Vec<String>),
    ConnectFailure,
>)
    ensures
        match r {
            Ok((program, arguments)) => {
                &&& cmd.len() > 0
                &&& program == cmd@[0]
                &&& arguments@ == cmd@.skip(1) + args@
            },
            Err(e) => cmd.len() == 0 && e is EmptyCommand,
        },
{
    if cmd.len() == 0 {
        return Err(ConnectFailure::EmptyCommand);
    }
    let mut arguments: Vec<String> = Vec::new();
    for i in 1..cmd.len()
        invariant
            cmd.len() > 0,
            arguments@ == cmd@.subrange(1, i as int),
    {
        arguments.push(cmd[i].clone());
        assert(cmd@.subrange(1, i + 1) =~= cmd@.subrange(1, i as int).push(cmd@[i as int]));
    }
    assert(cmd@.subrange(1, cmd.len() as int) =~= cmd@.skip(1));
    for i in 0..args.len()
        invariant
            arguments@ == cmd@.skip(1) + args@.take(i as int),
    {
        arguments.push(args[i].clone());
        assert(cmd@.skip(1) + args@.take(i + 1) =~= (cmd@.skip(1) + args@.take(i as int)).push(
            args@[i as int],
        ));
    }
    assert(args@.take(args.len() as int) =~= args@);
    Ok((cmd[0].clone(), arguments))
}

// ---------------------------------------------------------------------------
// Status
// ---------------------------------------------------------------------------

/// Whether a server is connected.
#[derive(Debug, PartialEq, Eq)]
pub enum ConnectionStatus {
    Connected,
    /// Connecting failed; why.
    Failed(String),
    NotAttempted,
}

/// What is known of a server.
#[derive(Debug, PartialEq, Eq)]
pub struct ServerInfo {
    pub name: String,
    pub description: Option<String>,
    pub tools_count: usize,
    pub status: ConnectionStatus,
    pub transport: String,
}

/// What is reported of a server.
#[derive(Debug, PartialEq, Eq)]
pub struct McpServerStatus {
    pub server_name: String,
    pub transport: String,
    pub status: String,
    pub tools_count: usize,
    pub reason: Option<String>,
}

/// A report by what it says.
pub struct Report {
    pub server_name: Seq<char>,
    pub transport: Seq<char>,
    pub status: Seq<char>,
    pub tools_count: usize,
    pub reason: Option<Seq<char>>,
}

impl View for McpServerStatus {
    type V = Report;

    open spec fn view(&self) -> Report {
        Report {
            server_name: self.server_name@,
            transport: self.transport@,
            status: self.status@,
            tools_count: self.tools_count,
            reason: match self.reason {
                Some(reason) => Some(reason@),
                None => None,
            },
        }
    }
}

/// What is reported of a server.
pub open spec fn report_of(info: ServerInfo) -> Report {
    Report {
        server_name: info.name@,
        transport: info.transport@,
        status: match info.status {
            ConnectionStatus::Connected => "connected"@,
            ConnectionStatus::Failed(_) => "failed"@,
            ConnectionStatus::NotAttempted => "not_attempted"@,
        },
        tools_count: info.tools_count,
        reason: match info.status {
            ConnectionStatus::Failed(reason) => Some(reason@),
            _ => None,
        },
    }
}

/// What is reported of a server.
pub fn report(info: &ServerInfo) -> (r: McpServerStatus)
    ensures
        r@ == report_of(*info),
{
    let (status, reason) = match &info.status {
        ConnectionStatus::Connected => ("connected".to_owned(), None),
        ConnectionStatus::Failed(reason) => ("failed".to_owned(), Some(reason.clone())),
        ConnectionStatus::NotAttempted => ("not_attempted".to_owned(), None),
    };
    McpServerStatus {
        server_name: info.name.clone(),
        transport: info.transport.clone(),
        status,
        tools_count: info.tools_count,
        reason,
    }
}

/// A server that failed is never reported as one that merely has no tools: it
/// is reported as failed, and only such a server comes with a reason.
pub proof fn law_failure_is_told_apart(info: ServerInfo)
    ensures
        (report_of(info).status == "failed"@) == (info.status is Failed),
        (report_of(info).status == "connected"@) == (info.status is Connected),
        (report_of(info).reason is Some) == (info.status is Failed),
{
    reveal_strlit("connected");
    reveal_strlit("failed");
    reveal_strlit("not_attempted");
    assert("connected"@.len() == 9);
    assert("failed"@.len() == 6);
    assert("not_attempted"@.len() == 13);
}

/// What is reported of the servers.
pub open spec fn reports_of(infos: Seq<ServerInfo>) -> Seq<Report> {
    Seq::new(infos.len(), |i: int| report_of(infos[i]))
}

/// The reports of a `Vec` by what they say.
pub open spec fn said_in(reports: Seq<McpServerStatus>) -> Seq<Report> {
    Seq::new(reports.len(), |i: int| reports[i]@)
}

/// Whether reports stand in the order of their servers' names.
pub open spec fn by_name(reports: Seq<Report>) -> bool {
    forall|i: int, j: int|
        0 <= i <= j < reports.len() ==> text_le(
            (#[trigger] reports[i]).server_name,
            (#[trigger] reports[j]).server_name,
        )
}

/// Puts a report into a list that stands in the order of names, behind those
/// of the same name.
fn insert_by_name(list: &mut Vec<McpServerStatus>, item: McpServerStatus)
    requires
        by_name(said_in(old(list)@)),
    ensures
        by_name(said_in(final(list)@)),
        said_in(final(list)@).to_multiset() == said_in(old(list)@).to_multiset().insert(item@),
{
    let ghost before = said_in(list@);
    let ghost added = item@;
    let mut k: usize = 0;
    while k < list.len() && le(&list[k].server_name, &item.server_name)
        invariant
            before == said_in(list@),
            added == item@,
            k <= list.len(),
            forall|j: int|
                0 <= j < k ==> text_le((#[trigger] before[j]).server_name, added.server_name),
        decreases list.len() - k,
    {
        assert(before[k as int] == list@[k as int]@);
        k = k + 1;
    }
    proof {
        if k < list.len() {
            assert(before[k as int] == list@[k as int]@);
            lemma_text_le_total(before[k as int].server_name, added.server_name);
        }
    }
    list.insert(k, item);
    let ghost after = said_in(list@);
    proof {
        assert(after =~= before.insert(k as int, added));
        vstd::seq_lib::to_multiset_insert(before, k as int, added);
        assert forall|i: int, j: int| 0 <= i <= j < after.len() implies text_le(
            (#[trigger] after[i]).server_name,
            (#[trigger] after[j]).server_name,
        ) by {
            lemma_text_le_total(after[i].server_name, after[i].server_name);
            if j == k {
                if i < k {
                    assert(after[i] == before[i]);
                }
            } else if i == k {
                assert(after[j] == before[j - 1]);
                lemma_text_le_transitive(
                    added.server_name,
                    before[k as int].server_name,
                    before[j - 1].server_name,
                );
            } else {
                let a = if i < k {
                    i
                } else {
                    i - 1
                };
                let b = if j < k {
                    j
                } else {
                    j - 1
                };
                assert(after[i] == before[a] && after[j] == before[b]);
            }
        }
    }
}

/// What is reported of the servers, in the order of their names.
pub fn report_all(infos: &Vec<ServerInfo>) -> (r: Vec<McpServerStatus>)
    ensures
        by_name(said_in(r@)),
        said_in(r@).to_multiset() == reports_of(infos@).to_multiset(),
{
    let mut r: Vec<McpServerStatus> = Vec::new();
    let ghost all = reports_of(infos@);
    assert(said_in(r@) =~= Seq::<Report>::empty());
    assert(all.take(0) =~= Seq::<Report>::empty());
    for i in 0..infos.len()
        invariant
            all == reports_of(infos@),
            by_name(said_in(r@)),
            said_in(r@).to_multiset() == all.take(i as int).to_multiset(),
    {
        proof {
            assert(all.take(i + 1) =~= all.take(i as int).push(all[i as int]));
            broadcast use vstd::seq_lib::group_to_multiset_ensures;
        }
        insert_by_name(&mut r, report(&infos[i]));
    }
    assert(all.take(infos.len() as int) =~= all);
    r
}

} // verus!
