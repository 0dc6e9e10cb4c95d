//! How statuses, bodies, events and patterns are read.
use super::glob::{matches_glob, selects};
use super::http_client::{posted, HttpReply, HttpStatus};
use super::headers::Header;
use super::sse::{connection, connection_step, Connection, StreamItem};
use crate::text::search::{first_of, lemma_find_from, occurs_at};
use vstd::prelude::*;

verus! {

// ---------------------------------------------------------------------------
// HTTP
// ---------------------------------------------------------------------------

/// A status of the two hundreds is a success, one of the four or five hundreds
/// a failure, and no status is both.
pub proof fn law_statuses_by_number(status: HttpStatus)
    ensures
        status.succeeded() <==> 200 <= status.number() < 300,
        status.failed() <==> 400 <= status.number() < 600,
        !(status.succeeded() && status.failed()),
{
}

/// A response is read as JSON or as events exactly where its content type
/// begins with the name of either.
pub proof fn law_bodies_by_content_type(reply: HttpReply)
    ensures
        reply.body() is Json <==> (reply.content_type matches Some(t)
            && "application/json"@.is_prefix_of(t@)),
        reply.body() is Events <==> (reply.content_type matches Some(t)
            && "text/event-stream"@.is_prefix_of(t@)),
{
    reveal_strlit("application/json");
    reveal_strlit("text/event-stream");
    match reply.content_type {
        Some(t) => {
            if "application/json"@.is_prefix_of(t@) && "text/event-stream"@.is_prefix_of(t@) {
                assert("application/json"@[0] == t@[0]);
                assert("text/event-stream"@[0] == t@[0]);
            }
        },
        None => {},
    }
}

/// Every posted message says that it is JSON and what answers it takes, and
/// carries the id of its session once there is one.
pub proof fn law_posted_headers(session_id: Option<Seq<char>>, overrides: Seq<Header>, i: int)
    ensures
        posted(session_id, overrides).contains(("Content-Type"@, "application/json"@)),
        posted(session_id, overrides).contains(
            ("Accept"@, "application/json, text/event-stream"@),
        ),
        session_id matches Some(id) ==> posted(session_id, overrides).contains(
            ("Mcp-Session-Id"@, id),
        ),
        0 <= i < overrides.len() ==> posted(session_id, overrides).contains(
            (overrides[i].name@, overrides[i].value@),
        ),
{
    let all = posted(session_id, overrides);
    assert(all[0] == ("Content-Type"@, "application/json"@));
    assert(all[1] == ("Accept"@, "application/json, text/event-stream"@));
    match session_id {
        Some(id) => {
            assert(all[2] == ("Mcp-Session-Id"@, id));
            if 0 <= i < overrides.len() {
                assert(all[3 + i] == (overrides[i].name@, overrides[i].value@));
            }
        },
        None => {
            if 0 <= i < overrides.len() {
                assert(all[2 + i] == (overrides[i].name@, overrides[i].value@));
            }
        },
    }
}

// ---------------------------------------------------------------------------
// Events
// ---------------------------------------------------------------------------

/// A connection is made by an event named "endpoint" alone; any other event
/// leaves it open, and a stream that breaks or ends first makes none.
pub proof fn law_only_endpoints_connect(base: Seq<char>, item: StreamItem)
    ensures
        match item {
            StreamItem::Event { event: Some(event), data: Some(data) } => {
                &&& event@ != "endpoint"@ ==> connection_step(base, item) is Open
                &&& event@ == "endpoint"@ ==> connection_step(base, item) is Connected
                    || connection_step(base, item) is BadEndpoint
            },
            StreamItem::Event { .. } => connection_step(base, item) is Open,
            StreamItem::Broken(e) => connection_step(base, item) == Connection::Broken(e@),
            StreamItem::Ended => connection_step(base, item) is NoEndpoint,
        },
{
}

/// Once a connection is decided, nothing that comes after changes it.
pub proof fn law_decided_connections_stay(
    base: Seq<char>,
    items: Seq<StreamItem>,
    more: Seq<StreamItem>,
)
    requires
        !(connection(base, items) is Open),
    ensures
        connection(base, items + more) == connection(base, items),
    decreases items.len(),
{
    let all = items + more;
    assert(items.len() > 0);
    assert(all[0] == items[0]);
    if connection_step(base, items[0]) is Open {
        assert(all.drop_first() =~= items.drop_first() + more);
        law_decided_connections_stay(base, items.drop_first(), more);
    }
}

// ---------------------------------------------------------------------------
// Patterns
// ---------------------------------------------------------------------------

/// Texts that match two patterns match, one behind the other, the one pattern
/// behind the other.
pub proof fn law_patterns_join(p: Seq<char>, a: Seq<char>, q: Seq<char>, b: Seq<char>)
    requires
        matches_glob(p, a),
        matches_glob(q, b),
    ensures
        matches_glob(p + q, a + b),
    decreases p.len() + a.len(),
{
    let (pattern, text) = (p + q, a + b);
    if p.len() == 0 {
        assert(pattern =~= q);
        assert(text =~= b);
    } else {
        assert(pattern[0] == p[0]);
        assert(pattern.drop_first() =~= p.drop_first() + q);
        if a.len() > 0 {
            assert(text[0] == a[0]);
            assert(text.drop_first() =~= a.drop_first() + b);
        }
        if p[0] == '*' {
            if matches_glob(p.drop_first(), a) {
                law_patterns_join(p.drop_first(), a, q, b);
            } else {
                law_patterns_join(p, a.drop_first(), q, b);
            }
        } else {
            law_patterns_join(p.drop_first(), a.drop_first(), q, b);
        }
    }
}

proof fn lemma_star(s: Seq<char>)
    ensures
        matches_glob(seq!['*'], s),
    decreases s.len(),
{
    let star = seq!['*'];
    if s.len() > 0 {
        lemma_star(s.drop_first());
    } else {
        assert(matches_glob(star.drop_first(), s));
    }
}

/// A plain text with a star behind it matches exactly what begins with the
/// text.
pub proof fn law_star_behind_takes_the_rest(plain: Seq<char>, s: Seq<char>)
    requires
        forall|i: int| 0 <= i < plain.len() ==> #[trigger] plain[i] != '*',
    ensures
        matches_glob(plain + seq!['*'], s) <==> plain.is_prefix_of(s),
    decreases plain.len(),
{
    let pattern = plain + seq!['*'];
    if plain.len() == 0 {
        assert(pattern =~= seq!['*']);
        lemma_star(s);
        assert(plain =~= s.take(0));
    } else {
        assert(pattern[0] == plain[0]);
        assert(pattern.drop_first() =~= plain.drop_first() + seq!['*']);
        if s.len() > 0 {
            assert forall|i: int| 0 <= i < plain.drop_first().len() implies #[trigger] plain.drop_first()[i]
                != '*' by {
                assert(plain[i + 1] != '*');
            }
            law_star_behind_takes_the_rest(plain.drop_first(), s.drop_first());
            if plain.is_prefix_of(s) {
                assert(plain[0] == s[0]);
                assert(plain.drop_first() =~= s.drop_first().take(plain.len() - 1));
            }
            if s[0] == plain[0] && plain.drop_first().is_prefix_of(s.drop_first()) {
                assert forall|i: int| 0 <= i < plain.len() implies plain[i] == s[i] by {
                    if i > 0 {
                        assert(plain.drop_first()[i - 1] == s.drop_first()[i - 1]);
                    }
                }
                assert(plain =~= s.take(plain.len() as int));
            }
        }
    }
}

/// A pattern with a colon in it selects tools of servers alone that match what
/// stands before the colon; it selects no tool whose server is not known.
pub proof fn law_colon_parts_server_and_tool(
    server: Seq<char>,
    tool: Seq<char>,
    namespace: Option<Seq<char>>,
    name: Seq<char>,
)
    requires
        forall|i: int| 0 <= i < server.len() ==> server[i] != ':',
    ensures
        selects(server + ":"@ + tool, namespace, name) <==> (namespace matches Some(n)
            && matches_glob(server, n) && matches_glob(tool, name)),
{
    let pattern = server + ":"@ + tool;
    reveal_strlit(":");
    lemma_find_from(pattern, ":"@, 0);
    let at = server.len() as int;
    assert(pattern.subrange(at, at + 1) =~= ":"@);
    assert(occurs_at(pattern, ":"@, at));
    let i = first_of(pattern, ":"@)->0;
    assert(pattern.subrange(i, i + 1)[0] == ':');
    assert(pattern[i] == ':');
    if i < at {
        assert(pattern[i] == server[i]);
    }
    assert(pattern.take(i) =~= server);
    assert(pattern.skip(i + 1) =~= tool);
}

/// A pattern without a colon selects by the name alone, whatever the server.
pub proof fn law_plain_patterns_go_by_name(
    pattern: Seq<char>,
    namespace: Option<Seq<char>>,
    name: Seq<char>,
)
    requires
        forall|i: int| 0 <= i < pattern.len() ==> pattern[i] != ':',
    ensures
        selects(pattern, namespace, name) <==> matches_glob(pattern, name),
{
    reveal_strlit(":");
    lemma_find_from(pattern, ":"@, 0);
    match first_of(pattern, ":"@) {
        Some(i) => {
            assert(pattern.subrange(i, i + 1)[0] == ':');
            assert(pattern[i] == ':');
        },
        None => {},
    }
}

} // verus!
