//! What callers of tools are told, of answers, failures and connections.
use super::client::{call_outcome, delivered, NoticeOutcome, ToolReply};
use super::connections::{
    failure_reason, failure_said, refused_login, report_of, ConnectFailure, ConnectionStatus,
    McpServerConfig, NamedServer, ServerInfo, Transport,
};
use super::conversion::{collected, kept_as, offered, offered_of, schema_of};
use super::execution::preview;
use super::headers::{sent, Header};
use super::manager::{info_after, ServerTools};
use super::progress::{product, version};
use super::response::bounded_error;
use super::schema_laws::type_of;
use super::schema_sanitize::sanitized;
use super::tools::{failure_prefix, placed, placed_tools, Placed, ToolKind};
use super::types::Tool;
use crate::json::Doc;
use crate::text::numerals::numeral;
use crate::text::parts::{lemma_holds, lemma_holds_in, lemma_holds_what_a_part_holds};
use crate::text::search::{contains_text, first_of, lemma_find_from, occurs_at};
use crate::text::trim::trimmed;
use crate::text::{byte_len, byte_prefix, is_white_space, lemma_chars_within_greatest};
use vstd::prelude::*;

verus! {

// ---------------------------------------------------------------------------
// Answers
// ---------------------------------------------------------------------------

/// A call succeeds exactly where the server answered it with a result; of a
/// failure the cause is told.
pub proof fn law_only_results_succeed(reply: ToolReply)
    ensures
        call_outcome(reply) is Ok <==> reply is Result,
        reply matches ToolReply::Failed(e) ==> (call_outcome(reply) matches Err(told)
            && contains_text(told, e@)),
{
    match reply {
        ToolReply::Failed(e) => {
            let told = "Tool execution failed: "@ + e@;
            assert(told =~= "Tool execution failed: "@ + e@ + Seq::empty());
            lemma_holds("Tool execution failed: "@, e@, Seq::empty());
        },
        _ => {},
    }
}

/// The kinds of tools announce their failures in different words.
pub proof fn law_failures_name_the_kind_of_tool()
    ensures
        failure_prefix(ToolKind::Named) == "MCP tool call failed: "@,
        failure_prefix(ToolKind::Streamable) == "Tool execution failed: "@,
        failure_prefix(ToolKind::Fallback) == "Fallback tool execution failed: "@,
{
}

/// As many notices are counted as were delivered: one more for each that was,
/// none for one that failed or timed out.
pub proof fn law_only_delivered_notices_count(
    outcomes: Seq<NoticeOutcome>,
    next: NoticeOutcome,
)
    ensures
        delivered(outcomes) <= outcomes.len(),
        delivered(outcomes.push(next)) == delivered(outcomes) + match next {
            NoticeOutcome::Delivered => 1nat,
            NoticeOutcome::Failed => 0nat,
            NoticeOutcome::TimedOut => 0nat,
        },
        (forall|i: int| 0 <= i < outcomes.len() ==> #[trigger] outcomes[i] is Delivered)
            ==> delivered(outcomes) == outcomes.len(),
    decreases outcomes.len(),
{
    assert(outcomes.push(next).drop_last() =~= outcomes);
    if outcomes.len() > 0 {
        let before = outcomes.drop_last();
        law_only_delivered_notices_count(before, outcomes.last());
        if forall|i: int| 0 <= i < outcomes.len() ==> #[trigger] outcomes[i] is Delivered {
            assert forall|i: int| 0 <= i < before.len() implies #[trigger] before[i]
                is Delivered by {
                assert(outcomes[i] is Delivered);
            }
            assert(outcomes[outcomes.len() - 1] is Delivered);
        }
    }
}

// ---------------------------------------------------------------------------
// Cut texts
// ---------------------------------------------------------------------------

/// A response within the bound is shown as it is; a longer one begins as the
/// response does, with no more than the bound of it, and says how long it is.
pub proof fn law_preview_is_honest(response: Seq<char>, max_len: nat)
    ensures
        byte_len(response) <= max_len ==> preview(response, max_len) == response,
        byte_len(response) > max_len ==> exists|kept: Seq<char>|
            {
                &&& #[trigger] kept.is_prefix_of(response)
                &&& byte_len(kept) <= max_len
                &&& preview(response, max_len) == kept + "... ("@ + numeral(byte_len(response))
                    + " chars)"@
            },
{
    lemma_chars_within_greatest(response, max_len);
    if byte_len(response) > max_len {
        let kept = byte_prefix(response, max_len);
        assert(kept =~= response.take(kept.len() as int));
        assert(kept.is_prefix_of(response));
    }
}

/// An error that is cut says how many bytes are left of how many, and no
/// character could have been kept besides.
pub proof fn law_cut_error_is_noted(content: Seq<char>, max: nat)
    requires
        byte_len(content) > max,
    ensures
        exists|kept: Seq<char>|
            {
                &&& #[trigger] kept.is_prefix_of(content)
                &&& byte_len(kept) <= max
                &&& kept.len() < content.len()
                &&& byte_len(content.take(kept.len() as int + 1)) > max
                &&& bounded_error(content, max) == kept + "\n[tool error truncated: "@ + numeral(
                    byte_len(kept),
                ) + " of "@ + numeral(byte_len(content)) + " bytes kept]"@
            },
{
    lemma_chars_within_greatest(content, max);
    let kept = byte_prefix(content, max);
    assert(kept =~= content.take(kept.len() as int));
    assert(kept.is_prefix_of(content));
    assert(bounded_error(content, max) =~= kept + "\n[tool error truncated: "@ + numeral(
        byte_len(kept),
    ) + " of "@ + numeral(byte_len(content)) + " bytes kept]"@);
}

// ---------------------------------------------------------------------------
// Connections
// ---------------------------------------------------------------------------

/// What a failed connection is given as its reason names the server where the
/// session or the list of tools failed; and it holds the cause, or says that
/// the login was refused. Only servers reached over HTTP refuse logins.
pub proof fn law_reason_names_the_server(
    transport: Transport,
    server_name: Seq<char>,
    e: String,
)
    ensures
        contains_text(
            failure_reason(transport, server_name, ConnectFailure::Establish(e)),
            server_name,
        ),
        contains_text(
            failure_reason(transport, server_name, ConnectFailure::Discover(e)),
            server_name,
        ),
        tells_cause(transport, server_name, ConnectFailure::Establish(e), e@),
        tells_cause(transport, server_name, ConnectFailure::Discover(e), e@),
        tells_cause(transport, server_name, ConnectFailure::OpenStream(e), e@),
        tells_cause(transport, server_name, ConnectFailure::Spawn(e), e@),
{
    lemma_said(transport, server_name, e);
    lemma_refused_login("HTTP"@, server_name);
    lemma_refused_login("SSE"@, server_name);
    lemma_cause(transport, server_name, ConnectFailure::Establish(e), e@);
    lemma_cause(transport, server_name, ConnectFailure::Discover(e), e@);
    lemma_cause(transport, server_name, ConnectFailure::OpenStream(e), e@);
    lemma_cause(transport, server_name, ConnectFailure::Spawn(e), e@);
}

/// Whether the reason of a failure holds its cause, or is that of a refused
/// login, which a cause that speaks of it always gives over HTTP.
pub open spec fn tells_cause(
    transport: Transport,
    server_name: Seq<char>,
    failure: ConnectFailure,
    cause: Seq<char>,
) -> bool {
    let reason = failure_reason(transport, server_name, failure);
    let refused = contains_text(reason, "authentication failed (401 Unauthorized)"@)
        && contains_text(reason, server_name);
    &&& contains_text(reason, cause) || refused
    &&& transport == Transport::Stdio ==> contains_text(reason, cause)
    &&& transport != Transport::Stdio && contains_text(cause, "401 Unauthorized"@) ==> refused
    &&& transport != Transport::Stdio && contains_text(cause, "HTTP status client error (401"@)
        ==> refused
}

proof fn lemma_refused_login(kind: Seq<char>, server_name: Seq<char>)
    ensures
        contains_text(
            refused_login(kind, server_name),
            "authentication failed (401 Unauthorized)"@,
        ),
        contains_text(refused_login(kind, server_name), server_name),
{
    let text = refused_login(kind, server_name);
    let rest =
        "' authentication failed (401 Unauthorized). Check that your headers, forwarded headers, and/or credentials are correct."@;
    assert(text =~= (kind + " MCP server '"@) + server_name + rest);
    lemma_holds_in(text, kind + " MCP server '"@, server_name, rest);
    let start = kind + " MCP server '"@ + server_name;
    assert(text =~= start + rest + Seq::empty());
    lemma_holds_in(text, start, rest, Seq::empty());
    lemma_login_words();
    lemma_holds_what_a_part_holds(text, rest, "authentication failed (401 Unauthorized)"@);
}

proof fn lemma_login_words()
    ensures
        contains_text(
            "' authentication failed (401 Unauthorized). Check that your headers, forwarded headers, and/or credentials are correct."@,
            "authentication failed (401 Unauthorized)"@,
        ),
{
    let words = "authentication failed (401 Unauthorized)"@;
    let rest =
        "' authentication failed (401 Unauthorized). Check that your headers, forwarded headers, and/or credentials are correct."@;
    reveal_strlit("authentication failed (401 Unauthorized)");
    reveal_strlit(
        "' authentication failed (401 Unauthorized). Check that your headers, forwarded headers, and/or credentials are correct.",
    );
    assert(words.len() == 40);
    assert(rest.subrange(2, 42) =~= words);
    assert(occurs_at(rest, words, 2));
}

proof fn lemma_said(transport: Transport, server_name: Seq<char>, e: String)
    ensures
        contains_text(
            failure_said(transport, server_name, ConnectFailure::Establish(e)),
            server_name,
        ),
        contains_text(
            failure_said(transport, server_name, ConnectFailure::Discover(e)),
            server_name,
        ),
{
    let a = super::connections::establish_text(transport);
    let b = super::connections::discover_text(transport);
    let rest = "': "@ + e@;
    let x = failure_said(transport, server_name, ConnectFailure::Establish(e));
    let y = failure_said(transport, server_name, ConnectFailure::Discover(e));
    assert(x =~= a + server_name + rest);
    assert(y =~= b + server_name + rest);
    lemma_holds_in(x, a, server_name, rest);
    lemma_holds_in(y, b, server_name, rest);
}

proof fn lemma_cause(
    transport: Transport,
    server_name: Seq<char>,
    failure: ConnectFailure,
    cause: Seq<char>,
)
    requires
        match failure {
            ConnectFailure::Spawn(e) => e@ == cause,
            ConnectFailure::OpenStream(e) => e@ == cause,
            ConnectFailure::Establish(e) => e@ == cause,
            ConnectFailure::Discover(e) => e@ == cause,
            ConnectFailure::EmptyCommand => false,
        },
    ensures
        tells_cause(transport, server_name, failure, cause),
{
    let said = failure_said(transport, server_name, failure);
    let before = said.take(said.len() - cause.len());
    assert(said =~= before + cause + Seq::empty());
    lemma_holds_in(said, before, cause, Seq::empty());
    lemma_refused_login("HTTP"@, server_name);
    lemma_refused_login("SSE"@, server_name);
    if contains_text(cause, "401 Unauthorized"@) {
        lemma_holds_what_a_part_holds(said, cause, "401 Unauthorized"@);
    }
    if contains_text(cause, "HTTP status client error (401"@) {
        lemma_holds_what_a_part_holds(said, cause, "HTTP status client error (401"@);
    }
}

// ---------------------------------------------------------------------------
// What is sent and offered
// ---------------------------------------------------------------------------

/// A header is sent exactly where it is among those given and can be sent: its
/// name has one to 65535 characters, none of them a space or a colon, and its
/// value no line break.
pub proof fn law_sent_headers_are_fit(headers: Seq<Header>, h: Header)
    ensures
        sent(headers).contains(h) <==> headers.contains(h) && h.sendable(),
        h.sendable() ==> 1 <= h.name@.len() <= 65535,
        h.sendable() ==> forall|i: int|
            0 <= i < h.name@.len() ==> #[trigger] h.name@[i] != ' ' && h.name@[i] != ':'
                && h.name@[i] != '\n',
        h.sendable() ==> forall|i: int|
            0 <= i < h.value@.len() ==> #[trigger] h.value@[i] != '\n' && h.value@[i] != '\r',
{
    lemma_filter(headers, |x: Header| x.sendable(), h);
}

proof fn lemma_filter<A>(s: Seq<A>, keep: spec_fn(A) -> bool, x: A)
    ensures
        s.filter(keep).contains(x) <==> s.contains(x) && keep(x),
    decreases s.len(),
{
    reveal(Seq::filter);
    if s.len() > 0 {
        let before = s.drop_last();
        lemma_filter(before, keep, x);
        let (kept, all) = (before.filter(keep), s.filter(keep));
        if kept.contains(x) {
            let i = choose|i: int| 0 <= i < kept.len() && kept[i] == x;
            assert(all[i] == x);
        }
        if before.contains(x) {
            let i = choose|i: int| 0 <= i < before.len() && before[i] == x;
            assert(s[i] == x);
        }
        if s.last() == x {
            assert(s[s.len() - 1] == x);
            if keep(x) {
                assert(all[all.len() - 1] == x);
            }
        }
        if all.contains(x) && s.last() != x {
            let i = choose|i: int| 0 <= i < all.len() && all[i] == x;
            assert(kept[i] == x);
        }
        if s.contains(x) && s.last() != x {
            let i = choose|i: int| 0 <= i < s.len() && s[i] == x;
            assert(before[i] == x);
        }
        if all.contains(x) && s.last() == x && !keep(x) {
            let i = choose|i: int| 0 <= i < all.len() && all[i] == x;
            assert(kept[i] == x);
        }
    }
}

/// Where schemas are not sanitized every tool is offered; where they are,
/// exactly those are whose schema does not name another type than an object.
pub proof fn law_tools_are_offered_by_their_schema(tool: Tool, tools: Seq<Tool>)
    ensures
        offered(tool, false),
        offered(tool, true) <==> (type_of(schema_of(tool)) is Some && type_of(schema_of(tool))->0
            is Text ==> type_of(schema_of(tool))->0 == Doc::Text("object"@)),
        forall|sanitize: bool|
            offered_of(tools, sanitize).contains(tool) <==> tools.contains(tool) && #[trigger] offered(
                tool,
                sanitize,
            ),
{
    assert forall|sanitize: bool|
        offered_of(tools, sanitize).contains(tool) <==> tools.contains(tool) && #[trigger] offered(
            tool,
            sanitize,
        ) by {
        lemma_filter(tools, |t: Tool| offered(t, sanitize), tool);
    }
}

/// What is known of a server that was reached counts the tools that are kept
/// of it, and of one that was not, none; why it was not is kept.
pub proof fn law_known_servers_count_their_tools(
    info: ServerInfo,
    server: NamedServer,
    outcome: Result<Vec<Tool>, ConnectFailure>,
    kept: Seq<Tool>,
    sanitize: bool,
)
    requires
        info_after(info, server, outcome, sanitize),
        outcome matches Ok(tools) ==> collected(kept, tools@, sanitize),
    ensures
        info.name@ == server.name@,
        match outcome {
            Ok(_) => info.status is Connected && info.tools_count == kept.len(),
            Err(failure) => info.status is Failed && info.tools_count == 0,
        },
        info.transport@ == match server.config {
            McpServerConfig::HttpStreamable { .. } => "http_streamable"@,
            McpServerConfig::Sse { .. } => "sse"@,
            McpServerConfig::Stdio { .. } => "stdio"@,
        },
{
}

/// A report says of a server what is known of it: its name, the way it is
/// reached, how many tools it has and, where it failed, why.
pub proof fn law_reports_say_what_is_known(info: ServerInfo)
    ensures
        report_of(info).server_name == info.name@,
        report_of(info).transport == info.transport@,
        report_of(info).tools_count == info.tools_count,
        info.status matches ConnectionStatus::Failed(reason) ==> report_of(info).reason == Some(
            reason@,
        ),
        report_of(info).status == match info.status {
            ConnectionStatus::Connected => "connected"@,
            ConnectionStatus::Failed(_) => "failed"@,
            ConnectionStatus::NotAttempted => "not_attempted"@,
        },
{
}

/// A tool is kept with all that its server says of it but its name and its
/// schema, and with its schema too where schemas are not sanitized.
pub proof fn law_kept_tools_keep_what_they_say(
    kept: Seq<Tool>,
    tools: Seq<Tool>,
    sanitize: bool,
    i: int,
)
    requires
        collected(kept, tools, sanitize),
        0 <= i < kept.len(),
    ensures
        exists|t: Tool|
            {
                &&& #[trigger] tools.contains(t)
                &&& kept[i].title == t.title
                &&& kept[i].description == t.description
                &&& kept[i].output_schema == t.output_schema
                &&& kept[i].annotations == t.annotations
                &&& !sanitize ==> schema_of(kept[i]) == schema_of(t)
                &&& sanitize ==> schema_of(kept[i]) == sanitized(schema_of(t))
            },
{
    let all = offered_of(tools, sanitize);
    let t = all[i];
    assert(kept_as(kept[i], t, sanitize));
    assert(all.contains(t));
    lemma_filter(tools, |x: Tool| offered(x, sanitize), t);
    assert(tools.contains(t));
}

proof fn lemma_placed_tools(s: ServerTools, sanitize: bool, n: int, p: Placed)
    requires
        0 <= n <= s.tools@.len(),
    ensures
        placed_tools(s, sanitize, n).contains(p) <==> p.server == s.server@ && exists|i: int|
            0 <= i < n && #[trigger] s.tools@[i] == p.tool && offered(p.tool, sanitize),
    decreases n,
{
    if n > 0 {
        lemma_placed_tools(s, sanitize, n - 1, p);
        let before = placed_tools(s, sanitize, n - 1);
        let all = placed_tools(s, sanitize, n);
        if before.contains(p) {
            let i = choose|i: int| 0 <= i < before.len() && before[i] == p;
            assert(all[i] == p);
        }
        if all.contains(p) && !before.contains(p) {
            let i = choose|i: int| 0 <= i < all.len() && all[i] == p;
            if i < before.len() {
                assert(before[i] == p);
            }
            assert(s.tools@[n - 1] == p.tool);
        }
        if p.server == s.server@ && s.tools@[n - 1] == p.tool && offered(p.tool, sanitize) {
            assert(all[all.len() - 1] == p);
        }
        if p.server == s.server@ && exists|i: int|
            0 <= i < n && #[trigger] s.tools@[i] == p.tool && offered(p.tool, sanitize) {
            let i = choose|i: int|
                0 <= i < n && #[trigger] s.tools@[i] == p.tool && offered(p.tool, sanitize);
            if i < n - 1 {
                assert(s.tools@[i] == p.tool);
                assert(before.contains(p));
            }
        }
    }
}

/// Whether a server of a list has a tool that is offered.
pub open spec fn offers(list: Seq<ServerTools>, sanitize: bool, n: int, p: Placed) -> bool {
    exists|k: int, i: int|
        0 <= k < n && (#[trigger] list[k]).server@ == p.server && 0 <= i < list[k].tools@.len()
            && #[trigger] list[k].tools@[i] == p.tool && offered(p.tool, sanitize)
}

/// The tools made callable over HTTP are exactly those offered by servers
/// reached that way, each with its own server.
pub proof fn law_callable_tools_are_placed(
    list: Seq<ServerTools>,
    sanitize: bool,
    n: int,
    p: Placed,
)
    requires
        0 <= n <= list.len(),
    ensures
        placed(list, sanitize, n).contains(p) <==> offers(list, sanitize, n, p),
    decreases n,
{
    if n > 0 {
        law_callable_tools_are_placed(list, sanitize, n - 1, p);
        let s = list[n - 1];
        lemma_placed_tools(s, sanitize, s.tools@.len() as int, p);
        let before = placed(list, sanitize, n - 1);
        let last = placed_tools(s, sanitize, s.tools@.len() as int);
        let all = placed(list, sanitize, n);
        if before.contains(p) {
            let i = choose|i: int| 0 <= i < before.len() && before[i] == p;
            assert(all[i] == p);
        }
        if last.contains(p) {
            let i = choose|i: int| 0 <= i < last.len() && last[i] == p;
            assert(all[before.len() + i] == p);
            let t = choose|t: int|
                0 <= t < s.tools@.len() && #[trigger] s.tools@[t] == p.tool && offered(
                    p.tool,
                    sanitize,
                );
            assert(list[n - 1].server@ == p.server && list[n - 1].tools@[t] == p.tool);
        }
        if all.contains(p) {
            let i = choose|i: int| 0 <= i < all.len() && all[i] == p;
            if i < before.len() {
                assert(before[i] == p);
            } else {
                assert(last[i - before.len()] == p);
            }
        }
        if offers(list, sanitize, n, p) {
            let (k, i) = choose|k: int, i: int|
                0 <= k < n && (#[trigger] list[k]).server@ == p.server && 0 <= i
                    < list[k].tools@.len() && #[trigger] list[k].tools@[i] == p.tool && offered(
                    p.tool,
                    sanitize,
                );
            if k < n - 1 {
                assert(offers(list, sanitize, n - 1, p));
            } else {
                assert(s.tools@[i] == p.tool);
            }
        }
    }
}

// ---------------------------------------------------------------------------
// Who the client says it is
// ---------------------------------------------------------------------------

proof fn lemma_trimmed_is_itself(s: Seq<char>)
    requires
        s.len() > 0,
        !is_white_space(s[0]),
        !is_white_space(s.last()),
    ensures
        trimmed(s) == s,
{
}

/// A token of a product and a version, neither blank at its ends and no slash
/// in the product, names both.
pub proof fn law_product_and_version_are_read(name: Seq<char>, number: Seq<char>)
    requires
        name.len() > 0,
        !is_white_space(name[0]),
        !is_white_space(name.last()),
        forall|i: int| 0 <= i < name.len() ==> name[i] != '/',
        number.len() > 0,
        !is_white_space(number[0]),
        !is_white_space(number.last()),
    ensures
        product(name + "/"@ + number) == name,
        version(name + "/"@ + number) == number,
{
    let token = name + "/"@ + number;
    reveal_strlit("/");
    lemma_find_from(token, "/"@, 0);
    let n = name.len() as int;
    assert(token.subrange(n, n + 1) =~= "/"@);
    assert(occurs_at(token, "/"@, n));
    let i = first_of(token, "/"@)->0;
    assert(token.subrange(i, i + 1)[0] == '/');
    assert(token[i] == '/');
    if i < n {
        assert(token[i] == name[i]);
    }
    assert(token.take(i) =~= name);
    assert(token.skip(i + 1) =~= number);
    lemma_trimmed_is_itself(name);
    lemma_trimmed_is_itself(number);
}

} // verus!
