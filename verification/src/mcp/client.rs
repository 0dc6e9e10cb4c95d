//! The client of one tool server: its requests in flight, and how calls end.
use super::execution::CANCELLED;
use super::http_client::CustomHttpClient;
use super::response::{extract_tool_result, CallToolResult};
use crate::json::pretty_json;
use crate::text::same;
use vstd::prelude::*;

verus! {

// ---------------------------------------------------------------------------
// Requests in flight
// ---------------------------------------------------------------------------

/// The id of a request to a tool server.
#[derive(Debug, PartialEq, Eq)]
pub enum RequestId {
    Number(i64),
    Text(String),
}

/// What a request's id is.
pub enum Id {
    Number(i64),
    Text(Seq<char>),
}

impl View for RequestId {
    type V = Id;

    open spec fn view(&self) -> Id {
        match *self {
            RequestId::Number(n) => Id::Number(n),
            RequestId::Text(s) => Id::Text(s@),
        }
    }
}

impl Clone for RequestId {
    fn clone(&self) -> (r: Self)
        ensures
            r == *self,
    {
        match self {
            RequestId::Number(n) => RequestId::Number(*n),
            RequestId::Text(s) => RequestId::Text(s.clone()),
        }
    }
}

impl RequestId {
    /// Whether two ids are the same.
    pub fn is(&self, other: &RequestId) -> (r: bool)
        ensures
            r == (self@ == other@),
    {
        match (self, other) {
            (RequestId::Number(a), RequestId::Number(b)) => *a == *b,
            (RequestId::Text(a), RequestId::Text(b)) => same(a, b),
            _ => false,
        }
    }
}

/// One request in flight on behalf of one HTTP request.
#[derive(Debug)]
struct InFlight {
    http_request_id: String,
    mcp_request_id: RequestId,
}

impl InFlight {
    spec fn pair(self) -> (Seq<char>, Id) {
        (self.http_request_id@, self.mcp_request_id@)
    }

    fn is(&self, http_request_id: &str, mcp_request_id: &RequestId) -> (r: bool)
        ensures
            r == (self.pair() == (http_request_id@, mcp_request_id@)),
    {
        same(&self.http_request_id, http_request_id) && self.mcp_request_id.is(mcp_request_id)
    }
}

/// The requests in flight, each with the HTTP request it was made for.
#[derive(Debug)]
pub struct InFlightRequests {
    requests: Vec<InFlight>,
}

impl View for InFlightRequests {
    type V = Set<(Seq<char>, Id)>;

    closed spec fn view(&self) -> Set<(Seq<char>, Id)> {
        self.pairs().to_set()
    }
}

impl InFlightRequests {
    spec fn pairs(self) -> Seq<(Seq<char>, Id)> {
        Seq::new(self.requests@.len(), |i: int| self.requests@[i].pair())
    }

    /// Nothing is in flight twice.
    #[verifier::type_invariant]
    spec fn each_once(self) -> bool {
        self.pairs().no_duplicates()
    }

    /// No request in flight.
    pub fn new() -> (r: InFlightRequests)
        ensures
            r@ == Set::<(Seq<char>, Id)>::empty(),
    {
        let r = InFlightRequests { requests: Vec::new() };
        assert(r.pairs() =~= Seq::empty());
        assert(r@ =~= Set::empty());
        r
    }

    /// Where a request is in flight.
    fn find(&self, http_request_id: &str, mcp_request_id: &RequestId) -> (r: Option<usize>)
        ensures
            match r {
                Some(i) => i < self.requests.len() && self.pairs()[i as int] == (
                    http_request_id@,
                    mcp_request_id@,
                ),
                None => !self@.contains((http_request_id@, mcp_request_id@)),
            },
    {
        for i in 0..self.requests.len()
            invariant
                forall|j: int|
                    0 <= j < i ==> #[trigger] self.pairs()[j] != (http_request_id@, mcp_request_id@),
        {
            if self.requests[i].is(http_request_id, mcp_request_id) {
                return Some(i);
            }
        }
        None
    }

    /// Registers a request made for an HTTP request.
    pub fn register(&mut self, http_request_id: &str, mcp_request_id: RequestId)
        ensures
            final(self)@ == old(self)@.insert((http_request_id@, mcp_request_id@)),
    {
        proof {
            use_type_invariant(&*self);
        }
        let ghost before = self.pairs();
        if self.find(http_request_id, &mcp_request_id).is_none() {
            let mut requests: Vec<InFlight> = Vec::new();
            std::mem::swap(&mut requests, &mut self.requests);
            let ghost pair = (http_request_id@, mcp_request_id@);
            requests.push(InFlight { http_request_id: http_request_id.to_owned(), mcp_request_id });
            assert(InFlightRequests { requests }.pairs() =~= before.push(pair));
            assert(before.push(pair).no_duplicates());
            self.requests = requests;
            proof {
                before.lemma_push_to_set_commute(pair);
            }
        }
        assert(self@ =~= old(self)@.insert((http_request_id@, mcp_request_id@)));
    }

    /// Forgets a request that ended.
    pub fn remove(&mut self, http_request_id: &str, mcp_request_id: &RequestId)
        ensures
            final(self)@ == old(self)@.remove((http_request_id@, mcp_request_id@)),
    {
        proof {
            use_type_invariant(&*self);
        }
        let ghost before = self.pairs();
        let ghost pair = (http_request_id@, mcp_request_id@);
        match self.find(http_request_id, mcp_request_id) {
            Some(i) => {
                let mut requests: Vec<InFlight> = Vec::new();
                std::mem::swap(&mut requests, &mut self.requests);
                let _ = requests.remove(i);
                let ghost after = InFlightRequests { requests }.pairs();
                assert(after =~= before.remove(i as int));
                self.requests = requests;
                proof {
                    assert forall|p: (Seq<char>, Id)|
                        after.contains(p) == (before.contains(p) && p != pair) by {
                        if before.contains(p) && p != pair {
                            let k = choose|k: int| 0 <= k < before.len() && before[k] == p;
                            if k < i {
                                assert(after[k] == p);
                            } else {
                                assert(after[k - 1] == p);
                            }
                        }
                    }
                }
            },
            None => (),
        }
        assert(self@ =~= old(self)@.remove(pair));
    }

    /// The requests in flight for an HTTP request, each once.
    pub fn get_all(&self, http_request_id: &str) -> (r: Vec<RequestId>)
        ensures
            forall|i: int, j: int| 0 <= i < j < r.len() ==> (#[trigger] r@[i])@ != (#[trigger] r@[j])@,
            forall|id: Id|
                self@.contains((http_request_id@, id)) == exists|i: int|
                    0 <= i < r.len() && (#[trigger] r@[i])@ == id,
    {
        proof {
            use_type_invariant(self);
        }
        let mut r: Vec<RequestId> = Vec::new();
        let ghost mut places: Seq<int> = Seq::empty();
        for k in 0..self.requests.len()
            invariant
                self.pairs().no_duplicates(),
                places.len() == r.len(),
                forall|i: int, j: int| 0 <= i < j < places.len() ==> #[trigger] places[i] < #[trigger] places[j],
                forall|i: int|
                    0 <= i < r.len() ==> 0 <= #[trigger] places[i] < k && self.pairs()[places[i]] == (
                        http_request_id@,
                        r@[i]@,
                    ),
                forall|n: int|
                    0 <= n < k && (#[trigger] self.pairs()[n]).0 == http_request_id@ ==> exists|i: int|
                        0 <= i < places.len() && #[trigger] places[i] == n,
        {
            assert(self.pairs()[k as int] == self.requests@[k as int].pair());
            if same(&self.requests[k].http_request_id, http_request_id) {
                r.push(self.requests[k].mcp_request_id.clone());
                let ghost before = places;
                proof {
                    places = places.push(k as int);
                    assert forall|n: int|
                        0 <= n < k + 1 && (#[trigger] self.pairs()[n]).0
                            == http_request_id@ implies exists|i: int|
                        0 <= i < places.len() && #[trigger] places[i] == n by {
                        if n < k {
                            let i = choose|i: int|
                                0 <= i < before.len() && #[trigger] before[i] == n;
                            assert(places[i] == n);
                        } else {
                            assert(places[before.len() as int] == n);
                        }
                    }
                }
            }
        }
        proof {
            assert forall|i: int, j: int| 0 <= i < j < r.len() implies (#[trigger] r@[i])@
                != (#[trigger] r@[j])@ by {
                assert(places[i] < places[j]);
                assert(self.pairs()[places[i]] != self.pairs()[places[j]]);
            }
            assert forall|id: Id|
                self@.contains((http_request_id@, id)) == exists|i: int|
                    0 <= i < r.len() && (#[trigger] r@[i])@ == id by {
                if self@.contains((http_request_id@, id)) {
                    let n = choose|n: int|
                        0 <= n < self.pairs().len() && self.pairs()[n] == (http_request_id@, id);
                    let i = choose|i: int| 0 <= i < places.len() && #[trigger] places[i] == n;
                    assert(r@[i]@ == id);
                }
                if exists|i: int| 0 <= i < r.len() && (#[trigger] r@[i])@ == id {
                    let i = choose|i: int| 0 <= i < r.len() && (#[trigger] r@[i])@ == id;
                    assert(self.pairs()[places[i]] == (http_request_id@, id));
                }
            }
        }
        r
    }

    /// Forgets every request made for an HTTP request.
    pub fn clear(&mut self, http_request_id: &str)
        ensures
            forall|p: (Seq<char>, Id)| #[trigger]
                final(self)@.contains(p) == (old(self)@.contains(p) && p.0 != http_request_id@),
    {
        proof {
            use_type_invariant(&*self);
        }
        let ids = self.get_all(http_request_id);
        let ghost before = self@;
        for k in 0..ids.len()
            invariant
                before == old(self)@,
                forall|p: (Seq<char>, Id)| #[trigger]
                    self@.contains(p) == (before.contains(p) && !(p.0 == http_request_id@ && exists|
                        i: int,
                    |
                        0 <= i < k && (#[trigger] ids@[i])@ == p.1)),
        {
            let ghost earlier = self@;
            self.remove(http_request_id, &ids[k]);
            proof {
                assert forall|p: (Seq<char>, Id)| #[trigger]
                    self@.contains(p) == (before.contains(p) && !(p.0 == http_request_id@ && exists|
                        i: int,
                    |
                        0 <= i < k + 1 && (#[trigger] ids@[i])@ == p.1)) by {
                    assert(earlier.contains(p) == (before.contains(p) && !(p.0 == http_request_id@
                        && exists|i: int| 0 <= i < k && (#[trigger] ids@[i])@ == p.1)));
                    if p == (http_request_id@, ids@[k as int]@) {
                        assert(ids@[k as int]@ == p.1);
                    }
                }
            }
        }
    }
}

/// A request that was registered and then ended leaves no trace.
pub proof fn law_ended_request_leaves_no_trace(
    in_flight: Set<(Seq<char>, Id)>,
    request: (Seq<char>, Id),
)
    requires
        !in_flight.contains(request),
    ensures
        in_flight.insert(request).remove(request) == in_flight,
{
    assert(in_flight.insert(request).remove(request) =~= in_flight);
}

// ---------------------------------------------------------------------------
// How a call ends
// ---------------------------------------------------------------------------

/// What a server answers a call with.
#[derive(Debug)]
pub enum ToolReply {
    Result(CallToolResult),
    /// An answer that belongs to another kind of request.
    Other,
    /// No answer; why.
    Failed(String),
}

/// What a call comes to: its text, or what went wrong.
pub type Outcome = Result<Seq<char>, Seq<char>>;

/// What a call comes to, by what it holds.
pub open spec fn outcome_of(r: Result<String, String>) -> Outcome {
    match r {
        Ok(text) => Ok(text@),
        Err(e) => Err(e@),
    }
}

/// The text of a result, as the caller of the tool gets it.
pub open spec fn result_shown(result: CallToolResult) -> Seq<char> {
    result.shown(
        match result.structured_content {
            Some(document) => Some(pretty_json(document@)),
            None => None,
        },
    )
}

/// What a call comes to.
pub open spec fn call_outcome(reply: ToolReply) -> Outcome {
    match reply {
        ToolReply::Result(result) => Ok(result_shown(result)),
        ToolReply::Other => Err("Unexpected response type for tool call"@),
        ToolReply::Failed(e) => Err("Tool execution failed: "@ + e@),
    }
}

/// What a call comes to.
pub fn tool_reply(reply: ToolReply) -> (r: Result<String, String>)
    ensures
        outcome_of(r) == call_outcome(reply),
{
    match reply {
        ToolReply::Result(result) => Ok(extract_tool_result(result)),
        ToolReply::Other => Err("Unexpected response type for tool call".to_owned()),
        ToolReply::Failed(e) => {
            let mut message = "Tool execution failed: ".to_owned();
            message.append(&e);
            Err(message)
        },
    }
}

/// Why a call failed: what is said of it, and what it was caused by where
/// that is known apart.
#[derive(Debug, PartialEq, Eq)]
pub struct CallFailure {
    pub message: String,
    pub cause: Option<String>,
}

impl CallFailure {
    /// Whether this is the failure with a message and a cause.
    pub open spec fn is(self, message: Seq<char>, cause: Option<Seq<char>>) -> bool {
        &&& self.message@ == message
        &&& match self.cause {
            Some(c) => cause == Some(c@),
            None => cause is None,
        }
    }
}

/// What a call with progress comes to: as any call, but a failure names the
/// tool and keeps its cause apart.
pub fn progress_reply(tool_name: &str, reply: ToolReply) -> (r: Result<String, CallFailure>)
    ensures
        match reply {
            ToolReply::Failed(e) => r matches Err(failure) && failure.is(
                "Tool '"@ + tool_name@ + "' execution failed"@,
                Some(e@),
            ),
            reply => match r {
                Ok(text) => call_outcome(reply) == Ok::<Seq<char>, Seq<char>>(text@),
                Err(failure) => call_outcome(reply) is Err && failure.is(
                    call_outcome(reply)->Err_0,
                    None,
                ),
            },
        },
{
    match reply {
        ToolReply::Failed(e) => {
            let mut message = "Tool '".to_owned();
            message.append(tool_name);
            message.append("' execution failed");
            Err(CallFailure { message, cause: Some(e) })
        },
        reply => match tool_reply(reply) {
            Ok(text) => Ok(text),
            Err(message) => Err(CallFailure { message, cause: None }),
        },
    }
}

/// What a server is told of a request that is given up.
#[derive(Debug)]
pub struct CancelNotice {
    pub request_id: RequestId,
    pub reason: String,
}

/// What came first of a call that can be cancelled.
#[derive(Debug)]
pub enum Race {
    Replied(ToolReply),
    Cancelled,
}

/// What a call that can be cancelled comes to, and what the server is then to
/// be told. Whether it can be told makes no difference to the call.
pub fn cancellable_reply(request_id: RequestId, race: Race) -> (r: (
    Option<CancelNotice>,
    Result<String, String>,
))
    ensures
        match race {
            Race::Replied(reply) => r.0 is None && outcome_of(r.1) == call_outcome(reply),
            Race::Cancelled => {
                &&& r.0 matches Some(notice) && notice.request_id == request_id
                    && notice.reason@ == "Client disconnected or timeout"@
                &&& outcome_of(r.1) == Err::<Seq<char>, Seq<char>>(CANCELLED@)
            },
        },
{
    match race {
        Race::Replied(reply) => (None, tool_reply(reply)),
        Race::Cancelled => (
            Some(
                CancelNotice { request_id, reason: "Client disconnected or timeout".to_owned() },
            ),
            Err(CANCELLED.to_owned()),
        ),
    }
}

/// Why a connection failed: the status that the transport saw, where it saw
/// one, before what it said itself.
pub fn connection_failure(http: &mut CustomHttpClient, error: String) -> (r: String)
    ensures
        r@ == match old(http).reason() {
            Some(reason) => reason + ": "@ + error@,
            None => error@,
        },
        final(http).reason() is None,
{
    match http.take_first_error() {
        Some(reason) => {
            let mut r = reason;
            r.append(": ");
            r.append(&error);
            r
        },
        None => error,
    }
}

// ---------------------------------------------------------------------------
// The client
// ---------------------------------------------------------------------------

/// The start of a tool call, as it is announced.
#[derive(Debug)]
pub struct ToolStart {
    pub tool_id: String,
    pub tool_name: String,
    pub progress_token: RequestId,
}

/// How the server took a notice.
#[derive(Debug, Clone, Copy, PartialEq, Eq, Structural)]
pub enum NoticeOutcome {
    Delivered,
    Failed,
    TimedOut,
}

/// The number of notices that were delivered.
pub open spec fn delivered(outcomes: Seq<NoticeOutcome>) -> nat
    decreases outcomes.len(),
{
    if outcomes.len() == 0 {
        0
    } else {
        delivered(outcomes.drop_last()) + if outcomes.last() is Delivered {
            1nat
        } else {
            0nat
        }
    }
}

fn count_delivered(outcomes: &Vec<NoticeOutcome>) -> (r: usize)
    ensures
        r == delivered(outcomes@),
{
    let mut n: usize = 0;
    for i in 0..outcomes.len()
        invariant
            n == delivered(outcomes@.take(i as int)),
            n <= i,
    {
        assert(outcomes@.take(i + 1).drop_last() =~= outcomes@.take(i as int));
        if outcomes[i] == NoticeOutcome::Delivered {
            n = n + 1;
        }
    }
    assert(outcomes@.take(outcomes.len() as int) =~= outcomes@);
    n
}

/// The client of one tool server.
#[derive(Debug)]
pub struct McpClient {
    server_url: String,
    in_flight: InFlightRequests,
    current_http_request_id: Option<String>,
}

impl McpClient {
    /// The address of the server.
    pub closed spec fn url(self) -> Seq<char> {
        self.server_url@
    }

    /// The requests in flight.
    pub closed spec fn pending(self) -> Set<(Seq<char>, Id)> {
        self.in_flight@
    }

    /// The HTTP request that calls are made for.
    pub closed spec fn current(self) -> Option<Seq<char>> {
        match self.current_http_request_id {
            Some(id) => Some(id@),
            None => None,
        }
    }

    /// A client with nothing in flight, working for no HTTP request.
    pub fn new(server_url: String) -> (r: McpClient)
        ensures
            r.url() == server_url@,
            r.pending() == Set::<(Seq<char>, Id)>::empty(),
            r.current() is None,
    {
        McpClient { server_url, in_flight: InFlightRequests::new(), current_http_request_id: None }
    }

    /// The address of the server.
    pub fn server_url(&self) -> (r: &str)
        ensures
            r@ == self.url(),
    {
        &self.server_url
    }

    /// Sets the HTTP request that calls are made for.
    pub fn set_current_request(&mut self, http_request_id: &str)
        ensures
            final(self).current() == Some(http_request_id@),
            final(self).url() == old(self).url(),
            final(self).pending() == old(self).pending(),
    {
        self.current_http_request_id = Some(http_request_id.to_owned());
    }

    /// Calls are made for no HTTP request from now on.
    pub fn clear_current_request(&mut self)
        ensures
            final(self).current() is None,
            final(self).url() == old(self).url(),
            final(self).pending() == old(self).pending(),
    {
        self.current_http_request_id = None;
    }

    /// The HTTP request that calls are made for. While there is one, a call is
    /// tracked on its behalf.
    pub fn get_current_request(&self) -> (r: Option<String>)
        ensures
            match r {
                Some(id) => self.current() == Some(id@),
                None => self.current() is None,
            },
    {
        match &self.current_http_request_id {
            Some(id) => Some(id.clone()),
            None => None,
        }
    }

    /// The requests in flight.
    pub fn in_flight_tracker(&self) -> (r: &InFlightRequests)
        ensures
            r@ == self.pending(),
    {
        &self.in_flight
    }

    /// A tracked call was sent: it is in flight from now on. Its start is
    /// announced where the call of the model that it belongs to is known.
    pub fn begin_tracked(
        &mut self,
        http_request_id: &str,
        mcp_request_id: RequestId,
        tool_name: &str,
        tool_call_id: Option<String>,
        progress_token: RequestId,
    ) -> (r: Option<ToolStart>)
        ensures
            final(self).pending() == old(self).pending().insert(
                (http_request_id@, mcp_request_id@),
            ),
            final(self).url() == old(self).url(),
            final(self).current() == old(self).current(),
            match tool_call_id {
                Some(id) => r matches Some(start) && start.tool_id == id && start.tool_name@
                    == tool_name@ && start.progress_token == progress_token,
                None => r is None,
            },
    {
        self.in_flight.register(http_request_id, mcp_request_id);
        match tool_call_id {
            Some(tool_id) => Some(
                ToolStart { tool_id, tool_name: tool_name.to_owned(), progress_token },
            ),
            None => None,
        }
    }

    /// A tracked call was answered, or failed: it is no longer in flight.
    pub fn finish_tracked(
        &mut self,
        http_request_id: &str,
        mcp_request_id: &RequestId,
        reply: ToolReply,
    ) -> (r: Result<String, String>)
        ensures
            final(self).pending() == old(self).pending().remove(
                (http_request_id@, mcp_request_id@),
            ),
            final(self).url() == old(self).url(),
            final(self).current() == old(self).current(),
            outcome_of(r) == call_outcome(reply),
    {
        self.in_flight.remove(http_request_id, mcp_request_id);
        tool_reply(reply)
    }

    /// What the server is to be told when an HTTP request is cancelled: one
    /// notice for each request in flight for it.
    pub fn cancel_notices(&self, http_request_id: &str, reason: &str) -> (r: Vec<CancelNotice>)
        ensures
            forall|i: int| 0 <= i < r.len() ==> (#[trigger] r@[i]).reason@ == reason@,
            forall|i: int, j: int|
                0 <= i < j < r.len() ==> (#[trigger] r@[i]).request_id@ != (
                #[trigger] r@[j]).request_id@,
            forall|id: Id|
                self.pending().contains((http_request_id@, id)) == exists|i: int|
                    0 <= i < r.len() && (#[trigger] r@[i]).request_id@ == id,
    {
        let ids = self.in_flight.get_all(http_request_id);
        let mut r: Vec<CancelNotice> = Vec::new();
        for i in 0..ids.len()
            invariant
                r.len() == i,
                forall|j: int|
                    0 <= j < i ==> (#[trigger] r@[j]).request_id == ids@[j] && r@[j].reason@
                        == reason@,
        {
            r.push(CancelNotice { request_id: ids[i].clone(), reason: reason.to_owned() });
        }
        proof {
            assert forall|id: Id|
                self.pending().contains((http_request_id@, id)) == exists|i: int|
                    0 <= i < r.len() && (#[trigger] r@[i]).request_id@ == id by {
                if self.pending().contains((http_request_id@, id)) {
                    let i = choose|i: int| 0 <= i < ids.len() && (#[trigger] ids@[i])@ == id;
                    assert(r@[i].request_id@ == id);
                }
                if exists|i: int| 0 <= i < r.len() && (#[trigger] r@[i]).request_id@ == id {
                    let i = choose|i: int| 0 <= i < r.len() && (#[trigger] r@[i]).request_id@ == id;
                    assert(ids@[i]@ == id);
                }
            }
        }
        r
    }

    /// The notices went out: nothing is in flight for the HTTP request any
    /// more, whether or not they were delivered. Gives the number that were.
    pub fn cancel_all_for_request(
        &mut self,
        http_request_id: &str,
        outcomes: &Vec<NoticeOutcome>,
    ) -> (r: usize)
        ensures
            r == delivered(outcomes@),
            final(self).url() == old(self).url(),
            final(self).current() == old(self).current(),
            forall|p: (Seq<char>, Id)| #[trigger]
                final(self).pending().contains(p) == (old(self).pending().contains(p) && p.0
                    != http_request_id@),
    {
        self.in_flight.clear(http_request_id);
        count_delivered(outcomes)
    }

    /// As [`McpClient::cancel_all_for_request`]; and calls are made for no
    /// HTTP request from now on, so that no late progress is routed. The
    /// connection is then to be closed.
    pub fn cancel_and_close(
        &mut self,
        http_request_id: &str,
        outcomes: &Vec<NoticeOutcome>,
    ) -> (r: usize)
        ensures
            r == delivered(outcomes@),
            final(self).url() == old(self).url(),
            final(self).current() is None,
            forall|p: (Seq<char>, Id)| #[trigger]
                final(self).pending().contains(p) == (old(self).pending().contains(p) && p.0
                    != http_request_id@),
    {
        let count = self.cancel_all_for_request(http_request_id, outcomes);
        self.clear_current_request();
        count
    }
}

/// Requests made for one HTTP request are not touched by what happens to
/// those of another.
pub proof fn law_http_requests_are_separate(
    in_flight: Set<(Seq<char>, Id)>,
    http: Seq<char>,
    id: Id,
    other: (Seq<char>, Id),
)
    requires
        other.0 != http,
    ensures
        in_flight.insert((http, id)).contains(other) == in_flight.contains(other),
        in_flight.remove((http, id)).contains(other) == in_flight.contains(other),
{
}

} // verus!
