//! Requests written as documents that can be compared.
//!
//! Two things in a request vary from run to run: the time that opens a user
//! message, and the order of the workers in the first one. The time is
//! replaced where it opens a message and nowhere else; the workers are put in
//! order within the two spans that list them and nowhere else. A request in
//! which either could be mistaken for something else is refused.
use super::envelope::{tools_doc, Message, RequestEnvelope};
use crate::json::{compact_json, pretty_json, pretty_print, write_compact};
use crate::text::numerals::{numeral, usize_text};
use crate::text::search::{
    contains, contains_text, count, find, first_of, lemma_find_from, occurrences, skip, split,
    split_at_each, starts_with,
};
use crate::text::sorting::{is_sorting_of, lemma_sorting_exists, lemma_sorting_unique, sort};
use crate::text::trim::{join, joined, views};
use crate::text::{char_count, char_width, to_chars, width_of};
use vstd::prelude::*;

verus! {

/// What opens a message that carries the time.
pub const TIMESTAMP_LABEL: &'static str = "Current time: ";

/// What stands for the time in a document.
pub const TIMESTAMP_STAND_IN: &'static str = "Current time: <TIMESTAMP>";

/// The length of a time such as `2026-07-08T00:33:54Z`.
pub const RFC3339_LEN: usize = 20;

/// The heading of the roster.
pub const ROSTER_MARKER: &'static str = "AVAILABLE WORKERS:";

/// What opens the list of valid names.
pub const VALID_NAMES_MARKER: &'static str = "Valid worker names: ";

// ---------------------------------------------------------------------------
// The time
// ---------------------------------------------------------------------------

/// Whether a character can stand at a place of a time.
pub open spec fn fits_time(i: int, c: char) -> bool {
    if i == 4 || i == 7 {
        c == '-'
    } else if i == 10 {
        c == 'T'
    } else if i == 13 || i == 16 {
        c == ':'
    } else if i == 19 {
        c == 'Z'
    } else {
        '0' <= c && c <= '9'
    }
}

/// Whether a text begins with a time.
pub open spec fn begins_with_time(s: Seq<char>) -> bool {
    s.len() >= RFC3339_LEN && forall|i: int|
        0 <= i < RFC3339_LEN ==> fits_time(i, #[trigger] s[i])
}

/// Whether a message opens with the label and a time.
pub open spec fn is_stamped(body: Seq<char>) -> bool {
    TIMESTAMP_LABEL@.is_prefix_of(body) && begins_with_time(
        body.skip(TIMESTAMP_LABEL@.len() as int),
    )
}

/// A message with the time that opens it replaced.
pub open spec fn unstamped(body: Seq<char>) -> Seq<char> {
    if is_stamped(body) {
        TIMESTAMP_STAND_IN@ + body.skip(TIMESTAMP_LABEL@.len() + RFC3339_LEN)
    } else {
        body
    }
}

fn has_time(chars: &Vec<char>, from: usize) -> (r: bool)
    requires
        from <= chars.len(),
    ensures
        r == begins_with_time(chars@.skip(from as int)),
{
    if chars.len() - from < RFC3339_LEN {
        return false;
    }
    let mut i: usize = 0;
    while i < RFC3339_LEN
        invariant
            from <= chars.len(),
            chars.len() - from >= RFC3339_LEN,
            i <= RFC3339_LEN,
            forall|j: int| 0 <= j < i ==> fits_time(j, #[trigger] chars@.skip(from as int)[j]),
        decreases RFC3339_LEN - i,
    {
        let c: char = chars[from + i];
        assert(chars@.skip(from as int)[i as int] == c);
        let fits = if i == 4 || i == 7 {
            c == '-'
        } else if i == 10 {
            c == 'T'
        } else if i == 13 || i == 16 {
            c == ':'
        } else if i == 19 {
            c == 'Z'
        } else {
            '0' <= c && c <= '9'
        };
        if !fits {
            return false;
        }
        i = i + 1;
    }
    true
}

/// Whether a message opens with the label and a time.
pub fn has_full_timestamp_prefix(body: &str) -> (r: bool)
    ensures
        r == is_stamped(body@),
{
    if !starts_with(body, TIMESTAMP_LABEL) {
        return false;
    }
    let chars = to_chars(body);
    has_time(&chars, char_count(TIMESTAMP_LABEL))
}

/// A message with the time that opens it replaced.
pub fn scrub_wrapper_timestamp(user_message: &str) -> (r: String)
    ensures
        r@ == unstamped(user_message@),
{
    if !has_full_timestamp_prefix(user_message) {
        return user_message.to_owned();
    }
    let label: usize = char_count(TIMESTAMP_LABEL);
    proof {
        reveal_strlit("Current time: ");
        let rest = user_message@.skip(label as int);
        assert(rest.len() >= RFC3339_LEN);
    }
    let mut r = TIMESTAMP_STAND_IN.to_owned();
    r.append(skip(user_message, label + RFC3339_LEN));
    r
}

/// Two messages that differ in their times alone are written alike.
pub proof fn law_times_make_no_difference(a: Seq<char>, b: Seq<char>)
    requires
        is_stamped(a),
        is_stamped(b),
        a.skip(TIMESTAMP_LABEL@.len() + RFC3339_LEN) == b.skip(TIMESTAMP_LABEL@.len() + RFC3339_LEN),
    ensures
        unstamped(a) == unstamped(b),
{
}

/// A time anywhere but at the start of a message is left as it is: whatever
/// follows the opening stays, and a message without the opening stays whole.
pub proof fn law_only_the_opening_is_replaced(body: Seq<char>)
    ensures
        is_stamped(body) ==> unstamped(body).skip(TIMESTAMP_STAND_IN@.len() as int) == body.skip(
            TIMESTAMP_LABEL@.len() + RFC3339_LEN,
        ),
        !is_stamped(body) ==> unstamped(body) == body,
{
    if is_stamped(body) {
        let rest = body.skip(TIMESTAMP_LABEL@.len() + RFC3339_LEN);
        assert((TIMESTAMP_STAND_IN@ + rest).skip(TIMESTAMP_STAND_IN@.len() as int) =~= rest);
    }
}

// ---------------------------------------------------------------------------
// Spans
// ---------------------------------------------------------------------------

/// Texts in order.
pub open spec fn sorted(parts: Seq<Seq<char>>) -> Seq<Seq<char>> {
    choose|s: Seq<Seq<char>>| is_sorting_of(s, parts)
}

/// A message with the entries between two places in order.
pub open spec fn span_sorted(message: Seq<char>, start: int, end: int, separator: Seq<char>) -> Seq<
    char,
> {
    message.take(start) + joined(
        sorted(split_at_each(message.subrange(start, end), separator)),
        separator,
    ) + message.skip(end)
}

/// Puts the entries between two places in order. What stands around them
/// stays as it is.
fn sort_span(message: &str, start: usize, end: usize, separator: &str) -> (r: String)
    requires
        start <= end <= message@.len(),
        separator@.len() > 0,
    ensures
        r@ == span_sorted(message@, start as int, end as int, separator@),
{
    let entries = split(message.substring_char(start, end), separator);
    let ghost parts = views(entries@);
    let ordered = sort(entries);
    proof {
        assert(is_sorting_of(views(ordered@), parts));
        assert(is_sorting_of(sorted(parts), parts));
        lemma_sorting_unique(views(ordered@), sorted(parts));
    }
    let mut r = message.substring_char(0, start).to_owned();
    assert(message@.subrange(0, start as int) =~= message@.take(start as int));
    r.append(&join(&ordered, separator));
    r.append(skip(message, end));
    r
}

/// The order in which entries were listed makes no difference.
proof fn lemma_sorted_alike(a: Seq<Seq<char>>, b: Seq<Seq<char>>)
    requires
        a.to_multiset() == b.to_multiset(),
    ensures
        sorted(a) == sorted(b),
{
    let s = lemma_sorting_exists(a);
    assert(is_sorting_of(s, b));
    lemma_sorting_unique(sorted(a), sorted(b));
}

// ---------------------------------------------------------------------------
// Defects
// ---------------------------------------------------------------------------

/// The two markers behind which workers are listed.
#[derive(Debug, Clone, Copy, PartialEq, Eq, Structural)]
pub enum Marker {
    Roster,
    ValidNames,
}

impl Marker {
    /// The text of the marker.
    pub open spec fn name(self) -> Seq<char> {
        match self {
            Marker::Roster => ROSTER_MARKER@,
            Marker::ValidNames => VALID_NAMES_MARKER@,
        }
    }

    /// The text of the marker.
    pub fn as_str(self) -> (r: &'static str)
        ensures
            r@ == self.name(),
            r@.len() > 0,
    {
        proof {
            reveal_strlit("AVAILABLE WORKERS:");
            reveal_strlit("Valid worker names: ");
        }
        match self {
            Marker::Roster => ROSTER_MARKER,
            Marker::ValidNames => VALID_NAMES_MARKER,
        }
    }
}

/// Why a request cannot be written as a document.
#[derive(Debug, Clone, Copy, PartialEq, Eq, Structural)]
#[allow(inconsistent_fields)]
pub enum NormalizationDefect {
    /// A user message opens with the label but not with a time.
    MalformedPrefix { index: usize },
    /// Some user messages open with a time and some do not.
    MixedPrefixes { with_prefix: usize, total: usize },
    InSystem { marker: Marker },
    InTools { marker: Marker },
    InAssistant { marker: Marker },
    /// The first user message holds a marker more than once.
    Repeated { marker: Marker, occurrences: usize },
    /// A later user message holds a marker.
    InLaterUser { marker: Marker, index: usize },
    /// Nothing follows the roster's heading.
    NoLineAfterHeading,
    /// The note that opens the roster does not end.
    NoteUnterminated,
    /// The sentence that closes the roster is missing.
    NoClosingSentence,
    /// An entry of the roster does not open with a name.
    BlockWithoutName,
    /// The list of valid names does not end.
    NamesUnterminated,
}

fn quoted_marker(marker: Marker) -> (r: String)
    ensures
        r@ == "normalization defect: \""@ + marker.name() + "\""@,
{
    let mut r = "normalization defect: \"".to_owned();
    r.append(marker.as_str());
    r.append("\"");
    r
}

impl NormalizationDefect {
    /// The defect in words.
    pub open spec fn text(self) -> Seq<char> {
        match self {
            NormalizationDefect::MalformedPrefix { index } => {
                "normalization defect: user message "@ + numeral(index as nat)
                    + " starts with a malformed 'Current time: ' prefix"@
            },
            NormalizationDefect::MixedPrefixes { with_prefix, total } => {
                "normalization defect: "@ + numeral(with_prefix as nat) + " of "@ + numeral(
                    total as nat,
                )
                    + " user messages carry the timestamp prefix (all-or-none expected; mixed prefixes mean builder drift)"@
            },
            NormalizationDefect::InSystem { marker } => {
                "normalization defect: \""@ + marker.name() + "\""@
                    + " found in the system preamble (payload collision)"@
            },
            NormalizationDefect::InTools { marker } => {
                "normalization defect: \""@ + marker.name() + "\""@
                    + " found in the tools JSON (payload collision)"@
            },
            NormalizationDefect::InAssistant { marker } => {
                "normalization defect: \""@ + marker.name() + "\""@
                    + " found in an assistant turn (payload collision)"@
            },
            NormalizationDefect::Repeated { marker, occurrences } => {
                "normalization defect: \""@ + marker.name() + "\""@ + " appears "@ + numeral(
                    occurrences as nat,
                ) + " times in the initial planning wrapper (at most once expected)"@
            },
            NormalizationDefect::InLaterUser { marker, index } => {
                "normalization defect: \""@ + marker.name() + "\""@ + " found in user message "@
                    + numeral(index as nat)
                    + " (rosters render only in the initial planning wrapper)"@
            },
            NormalizationDefect::NoLineAfterHeading => {
                "normalization defect: roster heading has no line after it"@
            },
            NormalizationDefect::NoteUnterminated => {
                "normalization defect: Summary/Full roster NOTE line has no terminator"@
            },
            NormalizationDefect::NoClosingSentence => {
                "normalization defect: roster has no closing sentence"@
            },
            NormalizationDefect::BlockWithoutName => {
                "normalization defect: roster block does not start with '## '"@
            },
            NormalizationDefect::NamesUnterminated => {
                "normalization defect: valid-names line has no terminator"@
            },
        }
    }

    /// The defect in words.
    pub fn message(self) -> (r: String)
        ensures
            r@ == self.text(),
    {
        match self {
            NormalizationDefect::MalformedPrefix { index } => {
                let mut r = "normalization defect: user message ".to_owned();
                r.append(&usize_text(index));
                r.append(" starts with a malformed 'Current time: ' prefix");
                r
            },
            NormalizationDefect::MixedPrefixes { with_prefix, total } => {
                let mut r = "normalization defect: ".to_owned();
                r.append(&usize_text(with_prefix));
                r.append(" of ");
                r.append(&usize_text(total));
                r.append(
                    " user messages carry the timestamp prefix (all-or-none expected; mixed prefixes mean builder drift)",
                );
                r
            },
            NormalizationDefect::InSystem { marker } => {
                let mut r = quoted_marker(marker);
                r.append(" found in the system preamble (payload collision)");
                r
            },
            NormalizationDefect::InTools { marker } => {
                let mut r = quoted_marker(marker);
                r.append(" found in the tools JSON (payload collision)");
                r
            },
            NormalizationDefect::InAssistant { marker } => {
                let mut r = quoted_marker(marker);
                r.append(" found in an assistant turn (payload collision)");
                r
            },
            NormalizationDefect::Repeated { marker, occurrences } => {
                let mut r = quoted_marker(marker);
                r.append(" appears ");
                r.append(&usize_text(occurrences));
                r.append(" times in the initial planning wrapper (at most once expected)");
                r
            },
            NormalizationDefect::InLaterUser { marker, index } => {
                let mut r = quoted_marker(marker);
                r.append(" found in user message ");
                r.append(&usize_text(index));
                r.append(" (rosters render only in the initial planning wrapper)");
                r
            },
            NormalizationDefect::NoLineAfterHeading => {
                "normalization defect: roster heading has no line after it".to_owned()
            },
            NormalizationDefect::NoteUnterminated => {
                "normalization defect: Summary/Full roster NOTE line has no terminator".to_owned()
            },
            NormalizationDefect::NoClosingSentence => {
                "normalization defect: roster has no closing sentence".to_owned()
            },
            NormalizationDefect::BlockWithoutName => {
                "normalization defect: roster block does not start with '## '".to_owned()
            },
            NormalizationDefect::NamesUnterminated => {
                "normalization defect: valid-names line has no terminator".to_owned()
            },
        }
    }
}

// ---------------------------------------------------------------------------
// Workers in order
// ---------------------------------------------------------------------------

/// What opens a roster that lists tools.
pub const NOTE_PREFIX: &'static str = "NOTE: ";

/// The sentence behind a roster that lists tools.
pub const INLINE_TAIL: &'static str = "\n\nAssign tasks to the worker whose tools best match the required operations.";

/// The sentence behind a roster that lists none.
pub const NO_TOOLS_TAIL: &'static str = "\n\nEach worker has specialized capabilities. Assign tasks to the most appropriate worker.";

/// Whether every entry opens with a name.
pub open spec fn all_named(blocks: Seq<Seq<char>>) -> bool {
    forall|i: int| 0 <= i < blocks.len() ==> "## "@.is_prefix_of(#[trigger] blocks[i])
}

/// A message whose roster, from place `start` on, lists tools, in order.
pub open spec fn noted_roster_in_order(m: Seq<char>, after: int) -> Result<
    Seq<char>,
    NormalizationDefect,
> {
    match first_of(m.skip(after), "\n\n"@) {
        None => Err(NormalizationDefect::NoteUnterminated),
        Some(i) => {
            let start = after + i + 2;
            match first_of(m.skip(start), INLINE_TAIL@) {
                None => Err(NormalizationDefect::NoClosingSentence),
                Some(k) => if all_named(split_at_each(m.subrange(start, start + k), "\n\n"@)) {
                    Ok(span_sorted(m, start, start + k, "\n\n"@))
                } else {
                    Err(NormalizationDefect::BlockWithoutName)
                },
            }
        },
    }
}

/// A message with its roster in order.
pub open spec fn roster_in_order(m: Seq<char>) -> Result<Seq<char>, NormalizationDefect> {
    match first_of(m, ROSTER_MARKER@) {
        None => Ok(m),
        Some(heading) => {
            let after = heading + ROSTER_MARKER@.len() + 1;
            if after > m.len() || char_width(m[after - 1]) != 1 {
                Err(NormalizationDefect::NoLineAfterHeading)
            } else if NOTE_PREFIX@.is_prefix_of(m.skip(after)) {
                noted_roster_in_order(m, after)
            } else {
                match first_of(m.skip(after), NO_TOOLS_TAIL@) {
                    None => Err(NormalizationDefect::NoClosingSentence),
                    Some(k) => Ok(span_sorted(m, after, after + k, "\n"@)),
                }
            }
        },
    }
}

/// A message with its list of valid names in order.
pub open spec fn names_in_order(m: Seq<char>) -> Result<Seq<char>, NormalizationDefect> {
    match first_of(m, VALID_NAMES_MARKER@) {
        None => Ok(m),
        Some(label) => {
            let start = label + VALID_NAMES_MARKER@.len();
            match first_of(m.skip(start), "\n"@) {
                None => Err(NormalizationDefect::NamesUnterminated),
                Some(k) => Ok(span_sorted(m, start, start + k, ", "@)),
            }
        },
    }
}

/// A message with its workers in order.
pub open spec fn workers_in_order(m: Seq<char>) -> Result<Seq<char>, NormalizationDefect> {
    match roster_in_order(m) {
        Ok(ordered) => names_in_order(ordered),
        Err(d) => Err(d),
    }
}

/// Where a message lists its workers, and what stands between two of them.
pub struct Span {
    pub start: int,
    pub end: int,
    pub separator: Seq<char>,
}

/// Where a message lists its roster; nowhere where it has none, or one that
/// cannot be read.
pub open spec fn roster_span(m: Seq<char>) -> Option<Span> {
    match first_of(m, ROSTER_MARKER@) {
        None => None,
        Some(heading) => {
            let after = heading + ROSTER_MARKER@.len() + 1;
            if after > m.len() || char_width(m[after - 1]) != 1 {
                None
            } else if NOTE_PREFIX@.is_prefix_of(m.skip(after)) {
                match first_of(m.skip(after), "\n\n"@) {
                    None => None,
                    Some(i) => {
                        let start = after + i + 2;
                        match first_of(m.skip(start), INLINE_TAIL@) {
                            None => None,
                            Some(k) => if all_named(
                                split_at_each(m.subrange(start, start + k), "\n\n"@),
                            ) {
                                Some(Span { start, end: start + k, separator: "\n\n"@ })
                            } else {
                                None
                            },
                        }
                    },
                }
            } else {
                match first_of(m.skip(after), NO_TOOLS_TAIL@) {
                    None => None,
                    Some(k) => Some(Span { start: after, end: after + k, separator: "\n"@ }),
                }
            }
        },
    }
}

/// Where a message lists the valid names; nowhere where it lists none, or
/// where the list does not end.
pub open spec fn names_span(m: Seq<char>) -> Option<Span> {
    match first_of(m, VALID_NAMES_MARKER@) {
        None => None,
        Some(label) => {
            let start = label + VALID_NAMES_MARKER@.len();
            match first_of(m.skip(start), "\n"@) {
                None => None,
                Some(k) => Some(Span { start, end: start + k, separator: ", "@ }),
            }
        },
    }
}

/// Whether two messages are the same apart from the order of what they list at
/// the given places.
pub open spec fn same_but_for_order(
    a: Seq<char>,
    b: Seq<char>,
    in_a: Option<Span>,
    in_b: Option<Span>,
) -> bool {
    match (in_a, in_b) {
        (Some(x), Some(y)) => {
            &&& x.start == y.start
            &&& x.separator == y.separator
            &&& a.take(x.start) == b.take(y.start)
            &&& a.skip(x.end) == b.skip(y.end)
            &&& split_at_each(a.subrange(x.start, x.end), x.separator).to_multiset()
                == split_at_each(b.subrange(y.start, y.end), y.separator).to_multiset()
        },
        (None, None) => a == b,
        _ => false,
    }
}

proof fn lemma_spans_sorted_alike(a: Seq<char>, b: Seq<char>, x: Span, y: Span)
    requires
        same_but_for_order(a, b, Some(x), Some(y)),
    ensures
        span_sorted(a, x.start, x.end, x.separator) == span_sorted(b, y.start, y.end, y.separator),
{
    lemma_sorted_alike(
        split_at_each(a.subrange(x.start, x.end), x.separator),
        split_at_each(b.subrange(y.start, y.end), y.separator),
    );
}

proof fn lemma_rosters_alike(a: Seq<char>, b: Seq<char>)
    requires
        same_but_for_order(a, b, roster_span(a), roster_span(b)),
    ensures
        roster_in_order(a) == roster_in_order(b),
{
    match (roster_span(a), roster_span(b)) {
        (Some(x), Some(y)) => {
            lemma_spans_sorted_alike(a, b, x, y);
            assert(roster_in_order(a) == Ok::<Seq<char>, NormalizationDefect>(
                span_sorted(a, x.start, x.end, x.separator),
            ));
            assert(roster_in_order(b) == Ok::<Seq<char>, NormalizationDefect>(
                span_sorted(b, y.start, y.end, y.separator),
            ));
        },
        _ => {},
    }
}

proof fn lemma_names_alike(a: Seq<char>, b: Seq<char>)
    requires
        same_but_for_order(a, b, names_span(a), names_span(b)),
    ensures
        names_in_order(a) == names_in_order(b),
{
    match (names_span(a), names_span(b)) {
        (Some(x), Some(y)) => {
            lemma_spans_sorted_alike(a, b, x, y);
        },
        _ => {},
    }
}

/// Two messages that differ only in the order of the roster are written alike.
pub proof fn law_order_makes_no_difference(a: Seq<char>, b: Seq<char>)
    requires
        same_but_for_order(a, b, roster_span(a), roster_span(b)),
    ensures
        workers_in_order(a) == workers_in_order(b),
{
    lemma_rosters_alike(a, b);
}

/// Two messages that, once their rosters are in order, differ only in the order
/// of the valid names are written alike.
pub proof fn law_order_of_names_makes_no_difference(
    a: Seq<char>,
    b: Seq<char>,
    with_a: Seq<char>,
    with_b: Seq<char>,
)
    requires
        roster_in_order(a) == Ok::<Seq<char>, NormalizationDefect>(with_a),
        roster_in_order(b) == Ok::<Seq<char>, NormalizationDefect>(with_b),
        same_but_for_order(with_a, with_b, names_span(with_a), names_span(with_b)),
    ensures
        workers_in_order(a) == workers_in_order(b),
{
    lemma_names_alike(with_a, with_b);
}

/// What a text or a defect is.
pub open spec fn shown(r: Result<String, NormalizationDefect>) -> Result<
    Seq<char>,
    NormalizationDefect,
> {
    match r {
        Ok(text) => Ok(text@),
        Err(d) => Err(d),
    }
}

/// Where a text stands from a place on.
fn find_after(m: &str, from: usize, pat: &str) -> (r: Option<usize>)
    requires
        from <= m@.len(),
        pat@.len() > 0,
    ensures
        match r {
            Some(i) => first_of(m@.skip(from as int), pat@) == Some(i as int) && from + i
                + pat@.len() <= m@.len(),
            None => first_of(m@.skip(from as int), pat@) is None,
        },
{
    let rest = skip(m, from);
    proof {
        lemma_find_from(rest@, pat@, 0);
    }
    find(rest, pat)
}

fn are_all_named(blocks: &Vec<String>) -> (r: bool)
    ensures
        r == all_named(views(blocks@)),
{
    for i in 0..blocks.len()
        invariant
            forall|j: int| 0 <= j < i ==> "## "@.is_prefix_of(#[trigger] views(blocks@)[j]),
    {
        assert(views(blocks@)[i as int] == blocks@[i as int]@);
        if !starts_with(&blocks[i], "## ") {
            return false;
        }
    }
    true
}

fn order_noted_roster(m: &str, after: usize) -> (r: Result<String, NormalizationDefect>)
    requires
        after <= m@.len(),
    ensures
        shown(r) == noted_roster_in_order(m@, after as int),
{
    proof {
        reveal_strlit("\n\n");
        reveal_strlit(
            "\n\nAssign tasks to the worker whose tools best match the required operations.",
        );
    }
    let length: usize = char_count(m);
    match find_after(m, after, "\n\n") {
        None => Err(NormalizationDefect::NoteUnterminated),
        Some(i) => {
            let start: usize = after + i + 2;
            match find_after(m, start, INLINE_TAIL) {
                None => Err(NormalizationDefect::NoClosingSentence),
                Some(k) => {
                    let end: usize = start + k;
                    let blocks = split(m.substring_char(start, end), "\n\n");
                    if are_all_named(&blocks) {
                        Ok(sort_span(m, start, end, "\n\n"))
                    } else {
                        Err(NormalizationDefect::BlockWithoutName)
                    }
                },
            }
        },
    }
}

fn order_roster(m: &str) -> (r: Result<String, NormalizationDefect>)
    ensures
        shown(r) == roster_in_order(m@),
{
    proof {
        reveal_strlit("\n");
        reveal_strlit("AVAILABLE WORKERS:");
        reveal_strlit(
            "\n\nEach worker has specialized capabilities. Assign tasks to the most appropriate worker.",
        );
        assert(m@.skip(0) =~= m@);
    }
    let length: usize = char_count(m);
    match find_after(m, 0, ROSTER_MARKER) {
        None => Ok(m.to_owned()),
        Some(heading) => {
            let line: usize = heading + char_count(ROSTER_MARKER);
            if line == length || width_of(m.get_char(line)) != 1 {
                return Err(NormalizationDefect::NoLineAfterHeading);
            }
            let after: usize = line + 1;
            if starts_with(skip(m, after), NOTE_PREFIX) {
                order_noted_roster(m, after)
            } else {
                match find_after(m, after, NO_TOOLS_TAIL) {
                    None => Err(NormalizationDefect::NoClosingSentence),
                    Some(k) => Ok(sort_span(m, after, after + k, "\n")),
                }
            }
        },
    }
}

fn order_names(m: &str) -> (r: Result<String, NormalizationDefect>)
    ensures
        shown(r) == names_in_order(m@),
{
    proof {
        reveal_strlit("\n");
        reveal_strlit(", ");
        reveal_strlit("Valid worker names: ");
        assert(m@.skip(0) =~= m@);
    }
    let length: usize = char_count(m);
    match find_after(m, 0, VALID_NAMES_MARKER) {
        None => Ok(m.to_owned()),
        Some(label) => {
            let start: usize = label + char_count(VALID_NAMES_MARKER);
            match find_after(m, start, "\n") {
                None => Err(NormalizationDefect::NamesUnterminated),
                Some(k) => Ok(sort_span(m, start, start + k, ", ")),
            }
        },
    }
}

/// Puts the workers that a message lists in order, and leaves every other
/// part of the message as it is.
pub fn canonicalize_worker_order(planning_wrapper: &str) -> (r: Result<
    String,
    NormalizationDefect,
>)
    ensures
        shown(r) == workers_in_order(planning_wrapper@),
{
    match order_roster(planning_wrapper) {
        Ok(ordered) => order_names(&ordered),
        Err(d) => Err(d),
    }
}

// ---------------------------------------------------------------------------
// The audit
// ---------------------------------------------------------------------------

/// The texts of the user messages among the first `n`.
pub open spec fn user_bodies(messages: Seq<Message>, n: int) -> Seq<Seq<char>>
    decreases n,
{
    if n <= 0 || n > messages.len() {
        Seq::empty()
    } else {
        match messages[n - 1] {
            Message::User(text) => user_bodies(messages, n - 1).push(text@),
            Message::Assistant(_) => user_bodies(messages, n - 1),
        }
    }
}

/// The texts of the assistant messages among the first `n`.
pub open spec fn assistant_bodies(messages: Seq<Message>, n: int) -> Seq<Seq<char>>
    decreases n,
{
    if n <= 0 || n > messages.len() {
        Seq::empty()
    } else {
        match messages[n - 1] {
            Message::User(_) => assistant_bodies(messages, n - 1),
            Message::Assistant(text) => assistant_bodies(messages, n - 1).push(text@),
        }
    }
}

/// Whether a message opens with the label but not with a time.
pub open spec fn is_malformed(body: Seq<char>) -> bool {
    TIMESTAMP_LABEL@.is_prefix_of(body) && !is_stamped(body)
}

/// The place of the first malformed message, from place `i` on.
pub open spec fn first_malformed(bodies: Seq<Seq<char>>, i: int) -> Option<int>
    decreases bodies.len() - i,
{
    if i < 0 || i >= bodies.len() {
        None
    } else if is_malformed(bodies[i]) {
        Some(i)
    } else {
        first_malformed(bodies, i + 1)
    }
}

/// How many of the first `n` messages open with a time.
pub open spec fn stamped_count(bodies: Seq<Seq<char>>, n: int) -> nat
    decreases n,
{
    if n <= 0 || n > bodies.len() {
        0
    } else {
        stamped_count(bodies, n - 1) + if is_stamped(bodies[n - 1]) {
            1nat
        } else {
            0nat
        }
    }
}

/// Whether one of the messages holds a marker.
pub open spec fn any_holds(bodies: Seq<Seq<char>>, marker: Marker) -> bool {
    exists|i: int| 0 <= i < bodies.len() && occurrences(#[trigger] bodies[i], marker.name()) != 0
}

/// The first defect of the user messages with regard to a marker, from place
/// `i` on.
pub open spec fn user_defect(bodies: Seq<Seq<char>>, marker: Marker, i: int) -> Option<
    NormalizationDefect,
>
    decreases bodies.len() - i,
{
    if i < 0 || i >= bodies.len() {
        None
    } else {
        let n = occurrences(bodies[i], marker.name());
        if i == 0 && n > 1 {
            Some(NormalizationDefect::Repeated { marker, occurrences: n as usize })
        } else if i > 0 && n > 0 {
            Some(NormalizationDefect::InLaterUser { marker, index: i as usize })
        } else {
            user_defect(bodies, marker, i + 1)
        }
    }
}

/// The first defect with regard to a marker.
pub open spec fn marker_defect(envelope: RequestEnvelope, marker: Marker) -> Option<
    NormalizationDefect,
> {
    let n = envelope.messages@.len() as int;
    if occurrences(envelope.system@, marker.name()) != 0 {
        Some(NormalizationDefect::InSystem { marker })
    } else if occurrences(compact_json(tools_doc(envelope.tools@)), marker.name()) != 0 {
        Some(NormalizationDefect::InTools { marker })
    } else if any_holds(assistant_bodies(envelope.messages@, n), marker) {
        Some(NormalizationDefect::InAssistant { marker })
    } else {
        user_defect(user_bodies(envelope.messages@, n), marker, 0)
    }
}

/// The first defect of a request, where it has one.
pub open spec fn first_defect(envelope: RequestEnvelope) -> Option<NormalizationDefect> {
    let bodies = user_bodies(envelope.messages@, envelope.messages@.len() as int);
    let stamped = stamped_count(bodies, bodies.len() as int);
    match first_malformed(bodies, 0) {
        Some(i) => Some(NormalizationDefect::MalformedPrefix { index: i as usize }),
        None => if stamped != 0 && stamped != bodies.len() {
            Some(
                NormalizationDefect::MixedPrefixes {
                    with_prefix: stamped as usize,
                    total: bodies.len() as usize,
                },
            )
        } else {
            match marker_defect(envelope, Marker::Roster) {
                Some(d) => Some(d),
                None => marker_defect(envelope, Marker::ValidNames),
            }
        },
    }
}

fn collect_user_bodies(messages: &Vec<Message>) -> (r: Vec<String>)
    ensures
        views(r@) == user_bodies(messages@, messages@.len() as int),
{
    let mut r: Vec<String> = Vec::new();
    assert(views(r@) =~= Seq::<Seq<char>>::empty());
    for i in 0..messages.len()
        invariant
            views(r@) == user_bodies(messages@, i as int),
    {
        let ghost before = views(r@);
        match &messages[i] {
            Message::User(text) => {
                r.push(text.clone());
                assert(views(r@) =~= before.push(text@));
            },
            Message::Assistant(_) => (),
        }
    }
    r
}

fn collect_assistant_bodies(messages: &Vec<Message>) -> (r: Vec<String>)
    ensures
        views(r@) == assistant_bodies(messages@, messages@.len() as int),
{
    let mut r: Vec<String> = Vec::new();
    assert(views(r@) =~= Seq::<Seq<char>>::empty());
    for i in 0..messages.len()
        invariant
            views(r@) == assistant_bodies(messages@, i as int),
    {
        let ghost before = views(r@);
        match &messages[i] {
            Message::User(_) => (),
            Message::Assistant(text) => {
                r.push(text.clone());
                assert(views(r@) =~= before.push(text@));
            },
        }
    }
    r
}

fn find_malformed(bodies: &Vec<String>) -> (r: Option<usize>)
    ensures
        match r {
            Some(i) => first_malformed(views(bodies@), 0) == Some(i as int),
            None => first_malformed(views(bodies@), 0) is None,
        },
{
    for i in 0..bodies.len()
        invariant
            first_malformed(views(bodies@), 0) == first_malformed(views(bodies@), i as int),
    {
        assert(views(bodies@)[i as int] == bodies@[i as int]@);
        if starts_with(&bodies[i], TIMESTAMP_LABEL) && !has_full_timestamp_prefix(&bodies[i]) {
            return Some(i);
        }
    }
    None
}

fn count_stamped(bodies: &Vec<String>) -> (r: usize)
    ensures
        r == stamped_count(views(bodies@), bodies@.len() as int),
{
    let mut n: usize = 0;
    for i in 0..bodies.len()
        invariant
            n <= i,
            n == stamped_count(views(bodies@), i as int),
    {
        assert(views(bodies@)[i as int] == bodies@[i as int]@);
        if has_full_timestamp_prefix(&bodies[i]) {
            n = n + 1;
        }
    }
    n
}

fn does_any_hold(bodies: &Vec<String>, marker: Marker) -> (r: bool)
    ensures
        r == any_holds(views(bodies@), marker),
{
    let needle = marker.as_str();
    for i in 0..bodies.len()
        invariant
            needle@ == marker.name(),
            needle@.len() > 0,
            forall|j: int|
                0 <= j < i ==> occurrences(#[trigger] views(bodies@)[j], marker.name()) == 0,
    {
        assert(views(bodies@)[i as int] == bodies@[i as int]@);
        if count(&bodies[i], needle) != 0 {
            return true;
        }
    }
    false
}

fn audit_users(bodies: &Vec<String>, marker: Marker) -> (r: Option<NormalizationDefect>)
    ensures
        r == user_defect(views(bodies@), marker, 0),
{
    let needle = marker.as_str();
    for i in 0..bodies.len()
        invariant
            needle@ == marker.name(),
            needle@.len() > 0,
            user_defect(views(bodies@), marker, 0) == user_defect(
                views(bodies@),
                marker,
                i as int,
            ),
    {
        assert(views(bodies@)[i as int] == bodies@[i as int]@);
        let n: usize = count(&bodies[i], needle);
        if i == 0 && n > 1 {
            return Some(NormalizationDefect::Repeated { marker, occurrences: n });
        }
        if i > 0 && n > 0 {
            return Some(NormalizationDefect::InLaterUser { marker, index: i });
        }
    }
    None
}

fn audit_marker(envelope: &RequestEnvelope, marker: Marker) -> (r: Option<NormalizationDefect>)
    ensures
        r == marker_defect(*envelope, marker),
{
    let needle = marker.as_str();
    if count(&envelope.system, needle) != 0 {
        return Some(NormalizationDefect::InSystem { marker });
    }
    let tools = write_compact(&envelope.tools_json());
    if count(&tools, needle) != 0 {
        return Some(NormalizationDefect::InTools { marker });
    }
    if does_any_hold(&collect_assistant_bodies(&envelope.messages), marker) {
        return Some(NormalizationDefect::InAssistant { marker });
    }
    audit_users(&collect_user_bodies(&envelope.messages), marker)
}

/// Whether a request holds just what the two passes expect; if not, the first
/// thing that is wrong with it. The user messages open with a time all or
/// none; a label without a time is a defect, not something to skip; and the
/// markers stand at most once, in the first user message alone.
pub fn audit_normalization_markers(envelope: &RequestEnvelope) -> (r: Result<
    (),
    NormalizationDefect,
>)
    ensures
        match r {
            Ok(_) => first_defect(*envelope) is None,
            Err(d) => first_defect(*envelope) == Some(d),
        },
{
    let bodies = collect_user_bodies(&envelope.messages);
    match find_malformed(&bodies) {
        Some(index) => {
            return Err(NormalizationDefect::MalformedPrefix { index });
        },
        None => (),
    }
    let with_prefix: usize = count_stamped(&bodies);
    let total: usize = bodies.len();
    if with_prefix != 0 && with_prefix != total {
        return Err(NormalizationDefect::MixedPrefixes { with_prefix, total });
    }
    match audit_marker(envelope, Marker::Roster) {
        Some(d) => {
            return Err(d);
        },
        None => (),
    }
    match audit_marker(envelope, Marker::ValidNames) {
        Some(d) => Err(d),
        None => Ok(()),
    }
}

// ---------------------------------------------------------------------------
// Documents
// ---------------------------------------------------------------------------

/// The word for the one who wrote a message.
pub open spec fn role(message: Message) -> Seq<char> {
    match message {
        Message::User(_) => "user"@,
        Message::Assistant(_) => "assistant"@,
    }
}

/// Whether no user message stands before place `i`.
pub open spec fn none_before(messages: Seq<Message>, i: int) -> bool {
    forall|j: int| 0 <= j < i ==> (#[trigger] messages[j]) is Assistant
}

/// The text of a message as it is written: the time of a user message
/// replaced, and the workers of the first one in order.
pub open spec fn written_body(messages: Seq<Message>, i: int) -> Result<
    Seq<char>,
    NormalizationDefect,
> {
    match messages[i] {
        Message::Assistant(text) => Ok(text@),
        Message::User(text) => {
            let body = unstamped(text@);
            if none_before(messages, i) && (contains_text(body, ROSTER_MARKER@) || contains_text(
                body,
                VALID_NAMES_MARKER@,
            )) {
                workers_in_order(body)
            } else {
                Ok(body)
            }
        },
    }
}

/// A message with its heading.
pub open spec fn headed(i: int, role: Seq<char>, body: Seq<char>) -> Seq<char> {
    "---- ["@ + numeral(i as nat) + "] "@ + role + " ----\n"@ + body + "\n\n"@
}

/// The first `n` messages as they are written.
pub open spec fn written_messages(messages: Seq<Message>, n: int) -> Result<
    Seq<char>,
    NormalizationDefect,
>
    decreases n,
{
    if n <= 0 || n > messages.len() {
        Ok(Seq::empty())
    } else {
        match written_messages(messages, n - 1) {
            Err(d) => Err(d),
            Ok(before) => match written_body(messages, n - 1) {
                Err(d) => Err(d),
                Ok(body) => Ok(before + headed(n - 1, role(messages[n - 1]), body)),
            },
        }
    }
}

/// The document of a request, with its tools written as `tools`.
pub open spec fn document(envelope: RequestEnvelope, tools: Seq<char>) -> Result<
    Seq<char>,
    NormalizationDefect,
> {
    match first_defect(envelope) {
        Some(d) => Err(d),
        None => match written_messages(envelope.messages@, envelope.messages@.len() as int) {
            Err(d) => Err(d),
            Ok(messages) => Ok(
                "================ SYSTEM ================\n"@ + envelope.system@
                    + "\n\n================ MESSAGES ================\n"@ + messages
                    + "================ TOOLS ================\n"@ + tools + "\n"@,
            ),
        },
    }
}

fn write_body(messages: &Vec<Message>, i: usize, first_user_seen: bool) -> (r: Result<
    String,
    NormalizationDefect,
>)
    requires
        i < messages.len(),
        first_user_seen == !none_before(messages@, i as int),
    ensures
        shown(r) == written_body(messages@, i as int),
{
    match &messages[i] {
        Message::Assistant(text) => Ok(text.clone()),
        Message::User(text) => {
            let body = scrub_wrapper_timestamp(text);
            if !first_user_seen && (contains(&body, ROSTER_MARKER) || contains(
                &body,
                VALID_NAMES_MARKER,
            )) {
                canonicalize_worker_order(&body)
            } else {
                Ok(body)
            }
        },
    }
}

fn write_messages(messages: &Vec<Message>) -> (r: Result<String, NormalizationDefect>)
    ensures
        shown(r) == written_messages(messages@, messages@.len() as int),
{
    let mut out = String::new();
    let mut first_user_seen = false;
    let mut i: usize = 0;
    while i < messages.len()
        invariant
            i <= messages.len(),
            written_messages(messages@, i as int) == Ok::<Seq<char>, NormalizationDefect>(out@),
            first_user_seen == !none_before(messages@, i as int),
        decreases messages.len() - i,
    {
        let body = match write_body(messages, i, first_user_seen) {
            Ok(body) => body,
            Err(d) => {
                proof {
                    lemma_defect_stays(messages@, i as int + 1, messages@.len() as int);
                }
                return Err(d);
            },
        };
        out.append("---- [");
        out.append(&usize_text(i));
        out.append("] ");
        let is_user = match &messages[i] {
            Message::User(_) => true,
            Message::Assistant(_) => false,
        };
        if is_user {
            out.append("user");
        } else {
            out.append("assistant");
        }
        out.append(" ----\n");
        out.append(&body);
        out.append("\n\n");
        proof {
            let before = written_messages(messages@, i as int)->Ok_0;
            assert(out@ =~= before + headed(i as int, role(messages@[i as int]), body@));
            if is_user {
                assert(!(messages@[i as int] is Assistant));
            }
            assert(none_before(messages@, i as int + 1) == (none_before(messages@, i as int)
                && messages@[i as int] is Assistant));
        }
        first_user_seen = first_user_seen || is_user;
        i = i + 1;
    }
    Ok(out)
}

proof fn lemma_defect_stays(messages: Seq<Message>, i: int, n: int)
    requires
        0 < i <= n <= messages.len(),
        written_messages(messages, i) is Err,
    ensures
        written_messages(messages, n) == written_messages(messages, i),
    decreases n,
{
    if i < n {
        lemma_defect_stays(messages, i, n - 1);
    }
}

/// A request as a document that can be compared with a recorded one.
#[derive(Debug, PartialEq, Eq)]
pub struct NormalizedSnapshot {
    text: String,
}

impl View for NormalizedSnapshot {
    type V = Seq<char>;

    closed spec fn view(&self) -> Seq<char> {
        self.text@
    }
}

impl NormalizedSnapshot {
    /// The text of the document.
    pub fn as_str(&self) -> (r: &str)
        ensures
            r@ == self@,
    {
        &self.text
    }
}

/// What a document or a defect is.
pub open spec fn snapshot_shown(r: Result<NormalizedSnapshot, NormalizationDefect>) -> Result<
    Seq<char>,
    NormalizationDefect,
> {
    match r {
        Ok(snapshot) => Ok(snapshot@),
        Err(d) => Err(d),
    }
}

/// The document of a request, with its tools written as `tools`.
pub fn normalize_with(envelope: &RequestEnvelope, tools: &str) -> (r: Result<
    NormalizedSnapshot,
    NormalizationDefect,
>)
    ensures
        snapshot_shown(r) == document(*envelope, tools@),
{
    match audit_normalization_markers(envelope) {
        Ok(_) => (),
        Err(d) => {
            return Err(d);
        },
    }
    let messages = match write_messages(&envelope.messages) {
        Ok(messages) => messages,
        Err(d) => {
            return Err(d);
        },
    };
    let mut text = "================ SYSTEM ================\n".to_owned();
    text.append(&envelope.system);
    text.append("\n\n================ MESSAGES ================\n");
    text.append(&messages);
    text.append("================ TOOLS ================\n");
    text.append(tools);
    text.append("\n");
    Ok(NormalizedSnapshot { text })
}

/// The document of a request, with its tools written as JSON for reading.
pub fn normalize(envelope: &RequestEnvelope) -> (r: Result<NormalizedSnapshot, NormalizationDefect>)
    ensures
        snapshot_shown(r) == document(*envelope, pretty_json(tools_doc(envelope.tools@))),
{
    normalize_with(envelope, &pretty_print(&envelope.tools_json()))
}

} // verus!
