//! Tool calls: what goes out, what is recorded, and how a failure is surfaced.
use super::response::{
    bound_error_content, bounded_error, law_error_is_bounded, MAX_TOOL_ERROR_BYTES,
    TOOL_ERROR_PREFIX,
};
use crate::json::{Json, Member};
use crate::text::numerals::{numeral, usize_text};
use crate::text::search::{contains, contains_text, starts_with};
use crate::text::sorting::{is_sorting_of, lemma_sorting_unique, sort};
use crate::text::trim::{join, joined, views};
use crate::text::{byte_count, byte_len, byte_prefix, safe_truncate};
use vstd::prelude::*;

verus! {

/// The words by which a cancelled call is known.
pub const CANCELLED: &'static str = "Request cancelled";

/// The most bytes of a response that a log line shows.
pub const LOG_PREVIEW_BYTES: usize = 200;

// ---------------------------------------------------------------------------
// Previews
// ---------------------------------------------------------------------------

/// A response as a log line shows it.
pub open spec fn preview(response: Seq<char>, max_len: nat) -> Seq<char> {
    if byte_len(response) > max_len {
        byte_prefix(response, max_len) + "... ("@ + numeral(byte_len(response)) + " chars)"@
    } else {
        response
    }
}

/// A response for a log line: cut at a character once it is longer than
/// `max_len` bytes, with its length behind it.
pub fn preview_response(response: &str, max_len: usize) -> (r: String)
    ensures
        r@ == preview(response@, max_len as nat),
{
    let length = byte_count(response);
    if length > max_len {
        let (kept, _) = safe_truncate(response, max_len);
        let mut r = kept.to_owned();
        r.append("... (");
        r.append(&usize_text(length));
        r.append(" chars)");
        r
    } else {
        response.to_owned()
    }
}

// ---------------------------------------------------------------------------
// Failures
// ---------------------------------------------------------------------------

/// Whether a failure says that the call was cancelled.
pub open spec fn is_cancellation(error: Seq<char>) -> bool {
    contains_text(error, CANCELLED@)
}

/// A transport failure as the agent sees it: nothing for a cancellation, which
/// passes on as it is, else the text within [`MAX_TOOL_ERROR_BYTES`].
pub fn bound_transport_error(error: &str) -> (r: Option<String>)
    ensures
        match r {
            None => is_cancellation(error@),
            Some(bounded) => !is_cancellation(error@) && bounded@ == bounded_error(
                error@,
                MAX_TOOL_ERROR_BYTES as nat,
            ),
        },
{
    if contains(error, CANCELLED) {
        None
    } else {
        Some(bound_error_content(error.to_owned(), MAX_TOOL_ERROR_BYTES))
    }
}

/// What the agent gets of a tool call.
#[derive(Debug, PartialEq, Eq)]
pub enum Surfaced {
    Response(String),
    /// The call was cancelled; the failure as it came.
    Cancelled(String),
    /// The call failed; the failure within its bound.
    Failed(String),
}

/// What the agent gets of a tool call that ended in `result`.
pub fn surface(result: Result<String, String>) -> (r: Surfaced)
    ensures
        match result {
            Ok(response) => r == Surfaced::Response(response),
            Err(error) => if is_cancellation(error@) {
                r == Surfaced::Cancelled(error)
            } else {
                r matches Surfaced::Failed(bounded) && bounded@ == bounded_error(
                    error@,
                    MAX_TOOL_ERROR_BYTES as nat,
                )
            },
        },
{
    match result {
        Ok(response) => Surfaced::Response(response),
        Err(error) => match bound_transport_error(&error) {
            None => Surfaced::Cancelled(error),
            Some(bounded) => Surfaced::Failed(bounded),
        },
    }
}

// ---------------------------------------------------------------------------
// Arguments
// ---------------------------------------------------------------------------

/// The arguments that a call is made with: the members of an object; anything
/// else has none.
pub open spec fn arguments_of(args: Json) -> Seq<Member> {
    match args {
        Json::Object(members) => members@,
        _ => Seq::empty(),
    }
}

/// The arguments that a call is made with.
pub fn call_arguments(args: Json) -> (r: Vec<Member>)
    ensures
        r@ == arguments_of(args),
{
    match args {
        Json::Object(members) => members,
        _ => Vec::new(),
    }
}

/// The number of parameters to record: that of an object's members, and none
/// for anything else.
pub fn parameter_count(args: &Json) -> (r: Option<usize>)
    ensures
        match r {
            Some(count) => args is Object && count == arguments_of(*args).len(),
            None => args !is Object,
        },
{
    match args {
        Json::Object(members) => Some(members.len()),
        _ => None,
    }
}

// ---------------------------------------------------------------------------
// Span records
// ---------------------------------------------------------------------------

/// The names of the headers applied to a call, in order, with a comma between
/// them.
pub open spec fn is_header_record(record: Seq<char>, names: Seq<Seq<char>>) -> bool {
    exists|sorted: Seq<Seq<char>>| #[trigger]
        is_sorting_of(sorted, names) && record == joined(sorted, ","@)
}

/// The record of the headers applied to a call. It holds their names alone.
pub fn applied_headers(names: Vec<String>) -> (r: String)
    ensures
        is_header_record(r@, views(names@)),
{
    let sorted = sort(names);
    let r = join(&sorted, ",");
    assert(is_sorting_of(views(sorted@), views(names@)));
    r
}

/// The record of a call's headers does not depend on the order in which the
/// headers were given.
pub proof fn law_header_record_is_unique(
    a: Seq<char>,
    b: Seq<char>,
    names: Seq<Seq<char>>,
    others: Seq<Seq<char>>,
)
    requires
        names.to_multiset() == others.to_multiset(),
        is_header_record(a, names),
        is_header_record(b, others),
    ensures
        a == b,
{
    let x = choose|sorted: Seq<Seq<char>>| #[trigger]
        is_sorting_of(sorted, names) && a == joined(sorted, ","@);
    let y = choose|sorted: Seq<Seq<char>>| #[trigger]
        is_sorting_of(sorted, others) && b == joined(sorted, ","@);
    lemma_sorting_unique(x, y);
}

/// What is recorded of how a call ended.
#[derive(Debug, PartialEq, Eq)]
pub struct ResultRecord {
    /// The length of the response in bytes, where there is one.
    pub length: Option<usize>,
    /// What went wrong, where something did.
    pub error: Option<String>,
    /// Whether the call was cancelled.
    pub cancelled: bool,
}

/// What is recorded of a call that ended in `result`. A tool that failed
/// answers with a marked response, which is recorded as an error too.
pub fn record_result(result: &Result<String, String>) -> (r: ResultRecord)
    ensures
        match *result {
            Ok(response) => {
                &&& r.length == Some(byte_len(response@) as usize)
                &&& byte_len(response@) <= usize::MAX
                &&& !r.cancelled
                &&& match r.error {
                    Some(error) => TOOL_ERROR_PREFIX@.is_prefix_of(response@) && error@
                        == response@,
                    None => !TOOL_ERROR_PREFIX@.is_prefix_of(response@),
                }
            },
            Err(error) => {
                &&& r.length is None
                &&& r.cancelled == is_cancellation(error@)
                &&& r.error matches Some(message) && message@ == if r.cancelled {
                    "cancelled"@
                } else {
                    error@
                }
            },
        },
{
    match result {
        Ok(response) => {
            let error = if starts_with(response, TOOL_ERROR_PREFIX) {
                Some(response.clone())
            } else {
                None
            };
            ResultRecord { length: Some(byte_count(response)), error, cancelled: false }
        },
        Err(error) => if contains(error, CANCELLED) {
            ResultRecord { length: None, error: Some("cancelled".to_owned()), cancelled: true }
        } else {
            ResultRecord { length: None, error: Some(error.clone()), cancelled: false }
        },
    }
}

/// A failure reaches the agent within eighty bytes of its bound, unless it is
/// a cancellation.
pub proof fn law_surfaced_failure_is_bounded(error: Seq<char>)
    requires
        byte_len(error) <= u64::MAX,
    ensures
        byte_len(bounded_error(error, MAX_TOOL_ERROR_BYTES as nat)) <= MAX_TOOL_ERROR_BYTES + 80,
{
    law_error_is_bounded(error, MAX_TOOL_ERROR_BYTES as nat);
}

} // verus!
