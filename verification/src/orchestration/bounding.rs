//! Bounds on what is shown, kept and spilled.
//!
//! Every truncation, summary, spill, display and history limit of the
//! orchestrator is decided here. Widths in bytes and widths in characters are
//! types of their own.
use super::config::OrchestrationConfig;
use crate::text::{
    byte_count, byte_len, byte_prefix, char_count, char_prefix, lemma_byte_len_concat,
    lemma_chars_within_greatest, safe_truncate, truncate_to_chars,
};
use vstd::prelude::*;

verus! {

/// A number that is not zero.
#[derive(Debug, Clone, Copy, PartialEq, Eq, Hash, PartialOrd, Ord)]
pub struct NonZeroCount {
    value: usize,
}

impl View for NonZeroCount {
    type V = usize;

    closed spec fn view(&self) -> usize {
        self.value
    }
}

impl NonZeroCount {
    #[verifier::type_invariant]
    spec fn valid(self) -> bool {
        self.value > 0
    }

    /// Accept any number but zero.
    pub fn new(value: usize) -> (r: Option<Self>)
        ensures
            match r {
                Some(v) => value > 0 && v@ == value,
                None => value == 0,
            },
    {
        if value == 0 {
            None
        } else {
            Some(NonZeroCount { value })
        }
    }

    /// The number.
    pub fn get(&self) -> (r: usize)
        ensures
            r == self@,
            r > 0,
    {
        proof {
            use_type_invariant(self);
        }
        self.value
    }
}

// ---------------------------------------------------------------------------
// Widths and truncation
// ---------------------------------------------------------------------------

/// A width in bytes that is not zero.
#[derive(Debug, Clone, Copy, PartialEq, Eq)]
pub struct ByteWidth {
    bytes: NonZeroCount,
}

impl View for ByteWidth {
    type V = usize;

    closed spec fn view(&self) -> usize {
        self.bytes@
    }
}

impl ByteWidth {
    /// Accept any width but zero.
    pub fn new(bytes: usize) -> (r: Option<Self>)
        ensures
            match r {
                Some(v) => bytes > 0 && v@ == bytes,
                None => bytes == 0,
            },
    {
        match NonZeroCount::new(bytes) {
            Some(bytes) => Some(ByteWidth { bytes }),
            None => None,
        }
    }

    /// The width.
    pub fn get(&self) -> (r: usize)
        ensures
            r == self@,
            r > 0,
    {
        self.bytes.get()
    }
}

/// A width in characters that is not zero.
#[derive(Debug, Clone, Copy, PartialEq, Eq)]
pub struct CharWidth {
    chars: NonZeroCount,
}

impl View for CharWidth {
    type V = usize;

    closed spec fn view(&self) -> usize {
        self.chars@
    }
}

impl CharWidth {
    /// Accept any width but zero.
    pub fn new(chars: usize) -> (r: Option<Self>)
        ensures
            match r {
                Some(v) => chars > 0 && v@ == chars,
                None => chars == 0,
            },
    {
        match NonZeroCount::new(chars) {
            Some(chars) => Some(CharWidth { chars }),
            None => None,
        }
    }

    /// The width.
    pub fn get(&self) -> (r: usize)
        ensures
            r == self@,
            r > 0,
    {
        self.chars.get()
    }
}

/// What follows a text that was cut.
#[derive(Debug, Clone, Copy, PartialEq, Eq)]
pub enum TruncateMarker {
    Unmarked,
    EllipsisChar,
    Dots,
}

impl TruncateMarker {
    /// The text of the marker.
    pub open spec fn text(self) -> Seq<char> {
        match self {
            TruncateMarker::Unmarked => Seq::empty(),
            TruncateMarker::EllipsisChar => "…"@,
            TruncateMarker::Dots => "..."@,
        }
    }
}

/// A text cut to a width in bytes, at a character, with a marker where it was
/// cut.
pub open spec fn cut_to_bytes(text: Seq<char>, max: nat, marker: TruncateMarker) -> Seq<char> {
    if byte_len(text) > max {
        byte_prefix(text, max) + marker.text()
    } else {
        text
    }
}

/// A text cut to a width in characters, with a marker where it was cut.
pub open spec fn cut_to_chars(text: Seq<char>, max: nat, marker: TruncateMarker) -> Seq<char> {
    if text.len() > max {
        text.take(max as int) + marker.text()
    } else {
        text
    }
}

fn append_marker(text: &mut String, marker: TruncateMarker)
    ensures
        final(text)@ == old(text)@ + marker.text(),
{
    match marker {
        TruncateMarker::Unmarked => {
            assert(text@ + Seq::<char>::empty() =~= text@);
        },
        TruncateMarker::EllipsisChar => {
            text.append("…");
        },
        TruncateMarker::Dots => {
            text.append("...");
        },
    }
}

/// Cut a text to a width in bytes.
pub fn truncate_bytes(text: &str, max: usize, marker: TruncateMarker) -> (r: String)
    ensures
        r@ == cut_to_bytes(text@, max as nat, marker),
{
    let (kept, cut) = safe_truncate(text, max);
    let mut out = kept.to_owned();
    if cut {
        append_marker(&mut out, marker);
    } else {
        proof {
            lemma_chars_within_greatest(text@, max as nat);
            assert(out@ =~= text@);
        }
    }
    out
}

/// Cut a text to a width in characters.
pub fn truncate_chars(text: &str, max: usize, marker: TruncateMarker) -> (r: String)
    ensures
        r@ == cut_to_chars(text@, max as nat, marker),
{
    let (kept, cut) = truncate_to_chars(text, max);
    let mut out = kept.to_owned();
    if cut {
        append_marker(&mut out, marker);
    }
    out
}

/// A text that fits is left as it is; one that does not is cut to a prefix
/// that fits, and only then is it marked.
pub proof fn law_cut_to_bytes(text: Seq<char>, max: nat, marker: TruncateMarker)
    ensures
        byte_len(text) <= max ==> cut_to_bytes(text, max, marker) == text,
        byte_len(text) > max ==> {
            &&& byte_prefix(text, max).is_prefix_of(text)
            &&& byte_len(byte_prefix(text, max)) <= max
            &&& cut_to_bytes(text, max, marker) == byte_prefix(text, max) + marker.text()
            &&& byte_len(cut_to_bytes(text, max, marker)) <= max + byte_len(marker.text())
        },
{
    lemma_chars_within_greatest(text, max);
    lemma_byte_len_concat(byte_prefix(text, max), marker.text());
}

/// Cutting twice without a marker is cutting once.
pub proof fn law_cut_is_idempotent(text: Seq<char>, max: nat)
    ensures
        cut_to_bytes(cut_to_bytes(text, max, TruncateMarker::Unmarked), max, TruncateMarker::Unmarked)
            == cut_to_bytes(text, max, TruncateMarker::Unmarked),
        cut_to_chars(cut_to_chars(text, max, TruncateMarker::Unmarked), max, TruncateMarker::Unmarked)
            == cut_to_chars(text, max, TruncateMarker::Unmarked),
{
    lemma_chars_within_greatest(text, max);
    assert(byte_prefix(text, max) + Seq::<char>::empty() =~= byte_prefix(text, max));
    assert(text.take(max as int) + Seq::<char>::empty() =~= text.take(max as int));
}

/// A threshold in bytes; zero is a threshold too.
#[derive(Debug, Clone, Copy, PartialEq, Eq)]
pub struct ByteThreshold {
    bytes: usize,
}

impl View for ByteThreshold {
    type V = usize;

    closed spec fn view(&self) -> usize {
        self.bytes
    }
}

impl ByteThreshold {
    /// A threshold of so many bytes.
    pub fn new(bytes: usize) -> (r: Self)
        ensures
            r@ == bytes,
    {
        ByteThreshold { bytes }
    }

    /// The threshold.
    pub fn get(&self) -> (r: usize)
        ensures
            r == self@,
    {
        self.bytes
    }

    /// Whether a text is at or below the threshold.
    pub fn allows_inline(&self, text: &str) -> (r: bool)
        ensures
            r == (byte_len(text@) <= self@),
    {
        byte_count(text) <= self.bytes
    }
}

/// A threshold in bytes that is not zero.
#[derive(Debug, Clone, Copy, PartialEq, Eq)]
pub struct NonZeroByteThreshold {
    bytes: NonZeroCount,
}

impl View for NonZeroByteThreshold {
    type V = usize;

    closed spec fn view(&self) -> usize {
        self.bytes@
    }
}

impl NonZeroByteThreshold {
    /// Accept any threshold but zero.
    pub fn new(bytes: usize) -> (r: Option<Self>)
        ensures
            match r {
                Some(v) => bytes > 0 && v@ == bytes,
                None => bytes == 0,
            },
    {
        match NonZeroCount::new(bytes) {
            Some(bytes) => Some(NonZeroByteThreshold { bytes }),
            None => None,
        }
    }

    /// The threshold.
    pub fn get(&self) -> (r: usize)
        ensures
            r == self@,
            r > 0,
    {
        self.bytes.get()
    }
}

/// A duration that is not zero, in milliseconds.
#[derive(Debug, Clone, Copy, PartialEq, Eq)]
pub struct NonZeroDuration {
    millis: u64,
}

impl View for NonZeroDuration {
    type V = u64;

    closed spec fn view(&self) -> u64 {
        self.millis
    }
}

impl NonZeroDuration {
    #[verifier::type_invariant]
    spec fn valid(self) -> bool {
        self.millis > 0
    }

    /// Accept any duration but zero.
    pub fn from_millis(ms: u64) -> (r: Option<Self>)
        ensures
            match r {
                Some(v) => ms > 0 && v@ == ms,
                None => ms == 0,
            },
    {
        if ms == 0 {
            None
        } else {
            Some(NonZeroDuration { millis: ms })
        }
    }

    /// The duration in milliseconds.
    pub fn as_millis(&self) -> (r: u64)
        ensures
            r == self@,
            r > 0,
    {
        proof {
            use_type_invariant(self);
        }
        self.millis
    }
}

// ---------------------------------------------------------------------------
// Spilling results
// ---------------------------------------------------------------------------

/// The width of a result's inline summary.
#[derive(Debug, Clone, Copy, PartialEq, Eq)]
pub enum ResultSummaryWidth {
    /// No summary, only the artifact's footer.
    Empty,
    /// A summary of at most so many bytes.
    Limited(NonZeroCount),
}

impl ResultSummaryWidth {
    /// The width in bytes.
    pub open spec fn bytes(self) -> usize {
        match self {
            ResultSummaryWidth::Empty => 0,
            ResultSummaryWidth::Limited(n) => n@,
        }
    }

    /// The width in bytes.
    pub fn get(&self) -> (r: usize)
        ensures
            r == self.bytes(),
    {
        match self {
            ResultSummaryWidth::Empty => 0,
            ResultSummaryWidth::Limited(n) => n.get(),
        }
    }

    /// Cut a text to the width, without a marker.
    pub fn truncate(&self, text: &str) -> (r: String)
        ensures
            r@ == cut_to_bytes(text@, self.bytes() as nat, TruncateMarker::Unmarked),
    {
        truncate_bytes(text, self.get(), TruncateMarker::Unmarked)
    }
}

/// A summary, and whether it was cut.
#[derive(Debug, PartialEq, Eq)]
pub struct TruncatedSummary {
    text: String,
    was_truncated: bool,
}

impl TruncatedSummary {
    /// The text of the summary.
    pub closed spec fn summary(self) -> Seq<char> {
        self.text@
    }

    /// Whether it was cut.
    pub closed spec fn is_cut(self) -> bool {
        self.was_truncated
    }

    fn new(text: String, was_truncated: bool) -> (r: Self)
        ensures
            r.summary() == text@,
            r.is_cut() == was_truncated,
    {
        TruncatedSummary { text, was_truncated }
    }

    /// Whether it was cut.
    pub fn was_truncated(&self) -> (r: bool)
        ensures
            r == self.is_cut(),
    {
        self.was_truncated
    }

    /// The text of the summary, by value.
    pub fn into_string(self) -> (r: String)
        ensures
            r@ == self.summary(),
    {
        self.text
    }

    /// The text of the summary.
    pub fn to_string(&self) -> (r: String)
        ensures
            r@ == self.summary(),
    {
        self.text.clone()
    }
}

/// When a worker's result is spilled, and how wide its summary is. A threshold
/// of zero spills everything that is not empty; a summary may be wider than
/// the threshold.
#[derive(Debug, Clone, Copy, PartialEq, Eq)]
pub struct ResultSpillBudget {
    threshold: ByteThreshold,
    summary_width: ResultSummaryWidth,
}

/// What is to be done with a result.
#[derive(Debug, PartialEq, Eq)]
pub enum ResultSpillDecision {
    /// It stays inline.
    Inline,
    /// It is spilled; the summary stands in its place.
    Spill {
        /// The summary.
        summary: String,
        /// The length of the result, in bytes.
        result_len: usize,
        /// Whether the summary was cut.
        was_truncated: bool,
    },
}

impl ResultSpillBudget {
    /// The threshold in bytes.
    pub closed spec fn limit(self) -> usize {
        self.threshold@
    }

    /// The summary's width in bytes.
    pub closed spec fn summary_bytes(self) -> usize {
        self.summary_width.bytes()
    }

    /// A budget of so many bytes, with a summary of so many.
    pub fn from_config(artifact_threshold: usize, summary_length: usize) -> (r: Self)
        ensures
            r.limit() == artifact_threshold,
            r.summary_bytes() == summary_length,
    {
        ResultSpillBudget {
            threshold: ByteThreshold::new(artifact_threshold),
            summary_width: match NonZeroCount::new(summary_length) {
                Some(n) => ResultSummaryWidth::Limited(n),
                None => ResultSummaryWidth::Empty,
            },
        }
    }

    /// The threshold.
    pub fn threshold(&self) -> (r: ByteThreshold)
        ensures
            r@ == self.limit(),
    {
        self.threshold
    }

    /// The summary's width.
    pub fn summary_width(&self) -> (r: ResultSummaryWidth)
        ensures
            r.bytes() == self.summary_bytes(),
    {
        self.summary_width
    }

    /// Decide about a result: inline at or below the threshold, else spilled
    /// with a summary.
    pub fn decide(&self, text: &str) -> (r: ResultSpillDecision)
        ensures
            if byte_len(text@) <= self.limit() {
                r == ResultSpillDecision::Inline
            } else {
                r matches ResultSpillDecision::Spill { summary, result_len, was_truncated }
                    && summary@ == byte_prefix(text@, self.summary_bytes() as nat) && result_len
                    == byte_len(text@) && was_truncated == (byte_len(text@) > self.summary_bytes())
            },
    {
        if self.threshold.allows_inline(text) {
            ResultSpillDecision::Inline
        } else {
            let summary = self.truncate_to_summary(text);
            let was_truncated = summary.was_truncated();
            ResultSpillDecision::Spill {
                summary: summary.into_string(),
                result_len: byte_count(text),
                was_truncated,
            }
        }
    }

    /// Cut a text to the summary's width.
    pub fn truncate_to_summary(&self, text: &str) -> (r: TruncatedSummary)
        ensures
            r.summary() == byte_prefix(text@, self.summary_bytes() as nat),
            r.is_cut() == (byte_len(text@) > self.summary_bytes()),
    {
        let (kept, cut) = safe_truncate(text, self.summary_width.get());
        TruncatedSummary::new(kept.to_owned(), cut)
    }
}

// ---------------------------------------------------------------------------
// Promoting tool outputs
// ---------------------------------------------------------------------------

/// Whether an output is promoted for its size. A threshold of zero promotes
/// every output, the empty one too.
#[derive(Debug, Clone, Copy, PartialEq, Eq)]
pub enum SizePromotion {
    /// Every output.
    PromoteAll,
    /// Outputs of more bytes.
    LargerThan(NonZeroByteThreshold),
}

/// Whether an output of so many bytes is promoted under a threshold.
pub open spec fn size_promotes(threshold: usize, bytes: nat) -> bool {
    threshold == 0 || bytes > threshold
}

impl SizePromotion {
    /// The threshold; zero promotes everything.
    pub open spec fn bytes(self) -> usize {
        match self {
            SizePromotion::PromoteAll => 0,
            SizePromotion::LargerThan(t) => t@,
        }
    }

    /// The policy of a threshold.
    pub fn from_threshold(bytes: usize) -> (r: Self)
        ensures
            r.bytes() == bytes,
            (r == SizePromotion::PromoteAll) == (bytes == 0),
    {
        match NonZeroByteThreshold::new(bytes) {
            Some(t) => SizePromotion::LargerThan(t),
            None => SizePromotion::PromoteAll,
        }
    }

    /// The threshold; zero promotes everything.
    pub fn threshold_bytes(&self) -> (r: usize)
        ensures
            r == self.bytes(),
    {
        match self {
            SizePromotion::PromoteAll => 0,
            SizePromotion::LargerThan(t) => t.get(),
        }
    }

    /// Whether an output is promoted.
    pub fn qualifies(&self, output: &str) -> (r: bool)
        ensures
            r == size_promotes(self.bytes(), byte_len(output@)),
    {
        match self {
            SizePromotion::PromoteAll => true,
            SizePromotion::LargerThan(t) => byte_count(output) > t.get(),
        }
    }
}

/// Whether an output is promoted for the time its call took. A threshold of
/// zero promotes nothing.
#[derive(Debug, Clone, Copy, PartialEq, Eq)]
pub enum DurationPromotion {
    /// Nothing.
    Disabled,
    /// Calls that took longer.
    LongerThan(NonZeroDuration),
}

/// Whether a call of so many nanoseconds is promoted under a threshold.
pub open spec fn duration_promotes(threshold_ms: u64, nanos: u128) -> bool {
    threshold_ms > 0 && nanos > threshold_ms * 1_000_000
}

impl DurationPromotion {
    /// The threshold in milliseconds; zero promotes nothing.
    pub open spec fn millis(self) -> u64 {
        match self {
            DurationPromotion::Disabled => 0,
            DurationPromotion::LongerThan(t) => t@,
        }
    }

    /// The policy of a threshold.
    pub fn from_millis(ms: u64) -> (r: Self)
        ensures
            r.millis() == ms,
            (r == DurationPromotion::Disabled) == (ms == 0),
    {
        match NonZeroDuration::from_millis(ms) {
            Some(t) => DurationPromotion::LongerThan(t),
            None => DurationPromotion::Disabled,
        }
    }

    /// The threshold in milliseconds; zero promotes nothing.
    pub fn threshold_millis(&self) -> (r: u64)
        ensures
            r == self.millis(),
    {
        match self {
            DurationPromotion::Disabled => 0,
            DurationPromotion::LongerThan(t) => t.as_millis(),
        }
    }

    /// Whether a call that took so many nanoseconds is promoted.
    pub fn qualifies(&self, nanos: u128) -> (r: bool)
        ensures
            r == duration_promotes(self.millis(), nanos),
    {
        match self {
            DurationPromotion::Disabled => false,
            DurationPromotion::LongerThan(t) => nanos > t.as_millis() as u128 * 1_000_000,
        }
    }
}

/// When a tool's output is promoted to an artifact.
#[derive(Debug, Clone, Copy, PartialEq, Eq)]
pub struct ToolOutputSpillBudget {
    size: SizePromotion,
    duration: DurationPromotion,
}

impl ToolOutputSpillBudget {
    /// The threshold on the size, in bytes.
    pub closed spec fn size_bytes(self) -> usize {
        self.size.bytes()
    }

    /// The threshold on the duration, in milliseconds.
    pub closed spec fn duration_millis(self) -> u64 {
        self.duration.millis()
    }

    /// The policies of two thresholds.
    pub fn from_config(size_threshold: usize, duration_threshold_ms: u64) -> (r: Self)
        ensures
            r.size_bytes() == size_threshold,
            r.duration_millis() == duration_threshold_ms,
    {
        ToolOutputSpillBudget {
            size: SizePromotion::from_threshold(size_threshold),
            duration: DurationPromotion::from_millis(duration_threshold_ms),
        }
    }

    /// The policy on the size.
    pub fn size(&self) -> (r: SizePromotion)
        ensures
            r.bytes() == self.size_bytes(),
    {
        self.size
    }

    /// The policy on the duration.
    pub fn duration(&self) -> (r: DurationPromotion)
        ensures
            r.millis() == self.duration_millis(),
    {
        self.duration
    }

    /// Whether an output is promoted for its size.
    pub fn size_qualifies(&self, output: &str) -> (r: bool)
        ensures
            r == size_promotes(self.size_bytes(), byte_len(output@)),
    {
        self.size.qualifies(output)
    }

    /// Whether an output is promoted for the time its call took.
    pub fn duration_qualifies(&self, nanos: u128) -> (r: bool)
        ensures
            r == duration_promotes(self.duration_millis(), nanos),
    {
        self.duration.qualifies(nanos)
    }
}

/// Zero means opposite things: a size threshold of zero promotes every output,
/// a duration threshold of zero promotes none.
pub proof fn law_zero_thresholds_are_asymmetric(bytes: nat, nanos: u128)
    ensures
        size_promotes(0, bytes),
        !duration_promotes(0, nanos),
{
}

// ---------------------------------------------------------------------------
// Display, duplicate calls, history
// ---------------------------------------------------------------------------

/// How many tools of a worker are listed.
#[derive(Debug, Clone, Copy, PartialEq, Eq)]
pub enum ToolListLimit {
    /// None.
    HideAll,
    /// At most so many.
    Limited(NonZeroCount),
}

impl ToolListLimit {
    /// The limit.
    pub open spec fn count(self) -> usize {
        match self {
            ToolListLimit::HideAll => 0,
            ToolListLimit::Limited(n) => n@,
        }
    }

    /// The limit of a count; zero lists none.
    pub fn new(count: usize) -> (r: Self)
        ensures
            r.count() == count,
            (r == ToolListLimit::HideAll) == (count == 0),
    {
        match NonZeroCount::new(count) {
            Some(n) => ToolListLimit::Limited(n),
            None => ToolListLimit::HideAll,
        }
    }

    /// The limit.
    pub fn get(&self) -> (r: usize)
        ensures
            r == self.count(),
    {
        match self {
            ToolListLimit::HideAll => 0,
            ToolListLimit::Limited(n) => n.get(),
        }
    }
}

/// The count from which a repeated call is nudged.
#[derive(Debug, Clone, Copy, PartialEq, Eq)]
pub struct NudgeThreshold {
    count: usize,
}

impl View for NudgeThreshold {
    type V = usize;

    closed spec fn view(&self) -> usize {
        self.count
    }
}

/// The count from which a repeated call is blocked.
#[derive(Debug, Clone, Copy, PartialEq, Eq)]
pub struct BlockThreshold {
    count: usize,
}

impl View for BlockThreshold {
    type V = usize;

    closed spec fn view(&self) -> usize {
        self.count
    }
}

/// When repeated identical calls are nudged and blocked. A threshold of zero
/// does not disable anything: it fires on the first call. A nudge at or after
/// the block is no nudge at all.
#[derive(Debug, Clone, Copy, PartialEq, Eq)]
#[allow(inconsistent_fields)]
pub enum DuplicateCallPolicy {
    /// Only block.
    BlockOnly { block: BlockThreshold },
    /// Nudge first, block later.
    NudgeThenBlock { nudge: NudgeThreshold, block: BlockThreshold },
}

impl DuplicateCallPolicy {
    /// The nudge threshold, where there is one.
    pub open spec fn nudge_count(self) -> Option<usize> {
        match self {
            DuplicateCallPolicy::BlockOnly { block } => None,
            DuplicateCallPolicy::NudgeThenBlock { nudge, block } => Some(nudge@),
        }
    }

    /// The block threshold.
    pub open spec fn block_count(self) -> usize {
        match self {
            DuplicateCallPolicy::BlockOnly { block } => block@,
            DuplicateCallPolicy::NudgeThenBlock { nudge, block } => block@,
        }
    }

    /// Whether the policy blocks at a count.
    pub open spec fn blocks_at(self, count: nat) -> bool {
        count >= self.block_count()
    }

    /// Whether the policy nudges at a count.
    pub open spec fn nudges_at(self, count: nat) -> bool {
        !self.blocks_at(count) && (self.nudge_count() matches Some(nudge) && count >= nudge)
    }

    /// The policy of two thresholds.
    pub fn new(nudge: usize, block: usize) -> (r: Self)
        ensures
            r.block_count() == block,
            r.nudge_count() == (if nudge >= block {
                None
            } else {
                Some(nudge)
            }),
    {
        if nudge >= block {
            DuplicateCallPolicy::BlockOnly { block: BlockThreshold { count: block } }
        } else {
            DuplicateCallPolicy::NudgeThenBlock {
                nudge: NudgeThreshold { count: nudge },
                block: BlockThreshold { count: block },
            }
        }
    }

    /// The nudge threshold, where there is one.
    pub fn nudge_threshold(&self) -> (r: Option<usize>)
        ensures
            r == self.nudge_count(),
    {
        match self {
            DuplicateCallPolicy::BlockOnly { .. } => None,
            DuplicateCallPolicy::NudgeThenBlock { nudge, .. } => Some(nudge.count),
        }
    }

    /// The block threshold.
    pub fn block_threshold(&self) -> (r: usize)
        ensures
            r == self.block_count(),
    {
        match self {
            DuplicateCallPolicy::BlockOnly { block } => block.count,
            DuplicateCallPolicy::NudgeThenBlock { block, .. } => block.count,
        }
    }
}

/// The policy of two thresholds does what comparing a count with the
/// thresholds themselves does, the block before the nudge.
pub proof fn law_policy_keeps_the_thresholds(
    policy: DuplicateCallPolicy,
    nudge: usize,
    block: usize,
    count: nat,
)
    requires
        policy.block_count() == block,
        policy.nudge_count() == (if nudge >= block {
            None
        } else {
            Some(nudge)
        }),
    ensures
        policy.blocks_at(count) == (count >= block),
        policy.nudges_at(count) == (count < block && count >= nudge),
{
}

/// How many prior runs are told to the coordinator.
#[derive(Debug, Clone, Copy, PartialEq, Eq)]
pub enum SessionHistoryLimit {
    /// None.
    Disabled,
    /// At most so many.
    Limited(NonZeroCount),
}

impl SessionHistoryLimit {
    /// The limit.
    pub open spec fn count(self) -> usize {
        match self {
            SessionHistoryLimit::Disabled => 0,
            SessionHistoryLimit::Limited(n) => n@,
        }
    }

    /// The limit of a count; zero disables the history.
    pub fn new(count: usize) -> (r: Self)
        ensures
            r.count() == count,
            (r == SessionHistoryLimit::Disabled) == (count == 0),
    {
        match NonZeroCount::new(count) {
            Some(n) => SessionHistoryLimit::Limited(n),
            None => SessionHistoryLimit::Disabled,
        }
    }

    /// The limit.
    pub fn get(&self) -> (r: usize)
        ensures
            r == self.count(),
    {
        match self {
            SessionHistoryLimit::Disabled => 0,
            SessionHistoryLimit::Limited(n) => n.get(),
        }
    }

    /// Whether there is a history.
    pub fn is_enabled(&self) -> (r: bool)
        ensures
            r == (*self is Limited),
    {
        match self {
            SessionHistoryLimit::Disabled => false,
            SessionHistoryLimit::Limited(_) => true,
        }
    }
}

// ---------------------------------------------------------------------------
// Widths in characters
// ---------------------------------------------------------------------------

/// The bound on each part of a named check, in characters.
pub const NAMED_CHECK_CHARS: usize = 500;

/// The width of a named check's identity and result.
#[derive(Debug, Clone, Copy, PartialEq, Eq)]
pub struct NamedCheckWidth {
    chars: usize,
}

impl View for NamedCheckWidth {
    type V = usize;

    closed spec fn view(&self) -> usize {
        self.chars
    }
}

impl NamedCheckWidth {
    /// The default width.
    pub fn default_width() -> (r: Self)
        ensures
            r@ == NAMED_CHECK_CHARS,
    {
        NamedCheckWidth { chars: NAMED_CHECK_CHARS }
    }

    /// Whether a text is within the width.
    pub fn fits(&self, text: &str) -> (r: bool)
        ensures
            r == (text@.len() <= self@),
    {
        char_count(text) <= self.chars
    }
}

/// The width of a failure handle, in characters.
pub const FAILURE_HANDLE_CHARS: usize = 120;

/// The width of a failure handle.
#[derive(Debug, Clone, Copy, PartialEq, Eq)]
pub struct FailureHandleWidth {
    width: CharWidth,
}

impl View for FailureHandleWidth {
    type V = usize;

    closed spec fn view(&self) -> usize {
        self.width@
    }
}

impl FailureHandleWidth {
    /// A width of one's own.
    pub fn new(width: CharWidth) -> (r: Self)
        ensures
            r@ == width@,
    {
        FailureHandleWidth { width }
    }

    /// The default width.
    pub fn default_width() -> (r: Self)
        ensures
            r@ == FAILURE_HANDLE_CHARS,
    {
        FailureHandleWidth { width: CharWidth::new(FAILURE_HANDLE_CHARS).unwrap() }
    }

    /// Cut a text to the width, and say whether anything was cut; the marker
    /// is the caller's.
    pub fn truncate_with_flag(&self, text: &str) -> (r: (String, bool))
        ensures
            r.0@ == char_prefix(text@, self@ as nat),
            r.1 == (text@.len() > self@),
    {
        let (kept, cut) = truncate_to_chars(text, self.width.get());
        (kept.to_owned(), cut)
    }

    /// Cut a text to the width.
    pub fn truncate(&self, text: &str) -> (r: String)
        ensures
            r@ == cut_to_chars(text@, self@ as nat, TruncateMarker::Unmarked),
    {
        truncate_chars(text, self.width.get(), TruncateMarker::Unmarked)
    }
}

/// The width of an error preview, in characters.
pub const ERROR_PREVIEW_WIDTH_CHARS: usize = 2000;

/// The width of an error preview.
#[derive(Debug, Clone, Copy, PartialEq, Eq)]
pub struct ErrorPreviewWidth {
    width: CharWidth,
}

impl View for ErrorPreviewWidth {
    type V = usize;

    closed spec fn view(&self) -> usize {
        self.width@
    }
}

impl ErrorPreviewWidth {
    /// A width of one's own.
    pub fn new(width: CharWidth) -> (r: Self)
        ensures
            r@ == width@,
    {
        ErrorPreviewWidth { width }
    }

    /// The default width.
    pub fn default_width() -> (r: Self)
        ensures
            r@ == ERROR_PREVIEW_WIDTH_CHARS,
    {
        ErrorPreviewWidth { width: CharWidth::new(ERROR_PREVIEW_WIDTH_CHARS).unwrap() }
    }

    /// Cut a text to the width, and say whether anything was cut; the marker
    /// is the caller's.
    pub fn truncate_with_flag(&self, text: &str) -> (r: (String, bool))
        ensures
            r.0@ == char_prefix(text@, self@ as nat),
            r.1 == (text@.len() > self@),
    {
        let (kept, cut) = truncate_to_chars(text, self.width.get());
        (kept.to_owned(), cut)
    }

    /// Cut a text to the width.
    pub fn truncate(&self, text: &str) -> (r: String)
        ensures
            r@ == cut_to_chars(text@, self@ as nat, TruncateMarker::Unmarked),
    {
        truncate_chars(text, self.width.get(), TruncateMarker::Unmarked)
    }
}

/// The width of a tool-reasoning preview, in characters.
pub const TOOL_REASONING_CHARS: usize = 100;

/// The width of a tool-reasoning preview.
#[derive(Debug, Clone, Copy, PartialEq, Eq)]
pub struct ToolReasoningWidth {
    width: CharWidth,
}

impl View for ToolReasoningWidth {
    type V = usize;

    closed spec fn view(&self) -> usize {
        self.width@
    }
}

impl ToolReasoningWidth {
    /// A width of one's own.
    pub fn new(width: CharWidth) -> (r: Self)
        ensures
            r@ == width@,
    {
        ToolReasoningWidth { width }
    }

    /// The default width.
    pub fn default_width() -> (r: Self)
        ensures
            r@ == TOOL_REASONING_CHARS,
    {
        ToolReasoningWidth { width: CharWidth::new(TOOL_REASONING_CHARS).unwrap() }
    }

    /// Cut a text to the width.
    pub fn truncate(&self, text: &str) -> (r: String)
        ensures
            r@ == cut_to_chars(text@, self@ as nat, TruncateMarker::EllipsisChar),
    {
        truncate_chars(text, self.width.get(), TruncateMarker::EllipsisChar)
    }
}

// ---------------------------------------------------------------------------
// Widths in bytes
// ---------------------------------------------------------------------------

/// The width of a routing rationale in a log, in bytes.
pub const ROUTING_RATIONALE_BYTES: usize = 80;

/// The width of a routing rationale in a log.
#[derive(Debug, Clone, Copy, PartialEq, Eq)]
pub struct RoutingRationaleWidth {
    width: ByteWidth,
}

impl View for RoutingRationaleWidth {
    type V = usize;

    closed spec fn view(&self) -> usize {
        self.width@
    }
}

impl RoutingRationaleWidth {
    /// A width of one's own.
    pub fn new(width: ByteWidth) -> (r: Self)
        ensures
            r@ == width@,
    {
        RoutingRationaleWidth { width }
    }

    /// The default width.
    pub fn default_width() -> (r: Self)
        ensures
            r@ == ROUTING_RATIONALE_BYTES,
    {
        RoutingRationaleWidth { width: ByteWidth::new(ROUTING_RATIONALE_BYTES).unwrap() }
    }

    /// Cut a text to the width.
    pub fn truncate(&self, text: &str) -> (r: String)
        ensures
            r@ == cut_to_bytes(text@, self@ as nat, TruncateMarker::Dots),
    {
        truncate_bytes(text, self.width.get(), TruncateMarker::Dots)
    }
}

/// The width of a task description in a log, in bytes.
pub const TASK_DESCRIPTION_LOG_BYTES: usize = 100;

/// The width of a task description in a log.
#[derive(Debug, Clone, Copy, PartialEq, Eq)]
pub struct TaskDescriptionLogWidth {
    width: ByteWidth,
}

impl View for TaskDescriptionLogWidth {
    type V = usize;

    closed spec fn view(&self) -> usize {
        self.width@
    }
}

impl TaskDescriptionLogWidth {
    /// A width of one's own.
    pub fn new(width: ByteWidth) -> (r: Self)
        ensures
            r@ == width@,
    {
        TaskDescriptionLogWidth { width }
    }

    /// The default width.
    pub fn default_width() -> (r: Self)
        ensures
            r@ == TASK_DESCRIPTION_LOG_BYTES,
    {
        TaskDescriptionLogWidth { width: ByteWidth::new(TASK_DESCRIPTION_LOG_BYTES).unwrap() }
    }

    /// Cut a text to the width.
    pub fn truncate(&self, text: &str) -> (r: String)
        ensures
            r@ == cut_to_bytes(text@, self@ as nat, TruncateMarker::Unmarked),
    {
        truncate_bytes(text, self.width.get(), TruncateMarker::Unmarked)
    }
}

/// The width of a task description in a tracing span, in bytes.
pub const TASK_DESCRIPTION_SPAN_BYTES: usize = 200;

/// The width of a task description in a tracing span.
#[derive(Debug, Clone, Copy, PartialEq, Eq)]
pub struct TaskDescriptionSpanWidth {
    width: ByteWidth,
}

impl View for TaskDescriptionSpanWidth {
    type V = usize;

    closed spec fn view(&self) -> usize {
        self.width@
    }
}

impl TaskDescriptionSpanWidth {
    /// A width of one's own.
    pub fn new(width: ByteWidth) -> (r: Self)
        ensures
            r@ == width@,
    {
        TaskDescriptionSpanWidth { width }
    }

    /// The default width.
    pub fn default_width() -> (r: Self)
        ensures
            r@ == TASK_DESCRIPTION_SPAN_BYTES,
    {
        TaskDescriptionSpanWidth { width: ByteWidth::new(TASK_DESCRIPTION_SPAN_BYTES).unwrap() }
    }

    /// Cut a text to the width.
    pub fn truncate(&self, text: &str) -> (r: String)
        ensures
            r@ == cut_to_bytes(text@, self@ as nat, TruncateMarker::Unmarked),
    {
        truncate_bytes(text, self.width.get(), TruncateMarker::Unmarked)
    }
}

/// The width of a goal, in bytes.
pub const GOAL_BYTES: usize = 200;

/// The width of a goal.
#[derive(Debug, Clone, Copy, PartialEq, Eq)]
pub struct GoalWidth {
    width: ByteWidth,
}

impl View for GoalWidth {
    type V = usize;

    closed spec fn view(&self) -> usize {
        self.width@
    }
}

impl GoalWidth {
    /// A width of one's own.
    pub fn new(width: ByteWidth) -> (r: Self)
        ensures
            r@ == width@,
    {
        GoalWidth { width }
    }

    /// The default width.
    pub fn default_width() -> (r: Self)
        ensures
            r@ == GOAL_BYTES,
    {
        GoalWidth { width: ByteWidth::new(GOAL_BYTES).unwrap() }
    }

    /// Cut a text to the width.
    pub fn truncate(&self, text: &str) -> (r: String)
        ensures
            r@ == cut_to_bytes(text@, self@ as nat, TruncateMarker::Unmarked),
    {
        truncate_bytes(text, self.width.get(), TruncateMarker::Unmarked)
    }
}

/// The width of a raw routing response, in bytes.
pub const ROUTING_RESPONSE_BYTES: usize = 300;

/// The width of a raw routing response.
#[derive(Debug, Clone, Copy, PartialEq, Eq)]
pub struct RoutingResponseWidth {
    width: ByteWidth,
}

impl View for RoutingResponseWidth {
    type V = usize;

    closed spec fn view(&self) -> usize {
        self.width@
    }
}

impl RoutingResponseWidth {
    /// A width of one's own.
    pub fn new(width: ByteWidth) -> (r: Self)
        ensures
            r@ == width@,
    {
        RoutingResponseWidth { width }
    }

    /// The default width.
    pub fn default_width() -> (r: Self)
        ensures
            r@ == ROUTING_RESPONSE_BYTES,
    {
        RoutingResponseWidth { width: ByteWidth::new(ROUTING_RESPONSE_BYTES).unwrap() }
    }

    /// Cut a text to the width.
    pub fn truncate(&self, text: &str) -> (r: String)
        ensures
            r@ == cut_to_bytes(text@, self@ as nat, TruncateMarker::Unmarked),
    {
        truncate_bytes(text, self.width.get(), TruncateMarker::Unmarked)
    }
}

/// The width of a query in a log, in bytes.
pub const QUERY_LOG_BYTES: usize = 100;

/// The width of a query in a log.
#[derive(Debug, Clone, Copy, PartialEq, Eq)]
pub struct QueryLogWidth {
    width: ByteWidth,
}

impl View for QueryLogWidth {
    type V = usize;

    closed spec fn view(&self) -> usize {
        self.width@
    }
}

impl QueryLogWidth {
    /// A width of one's own.
    pub fn new(width: ByteWidth) -> (r: Self)
        ensures
            r@ == width@,
    {
        QueryLogWidth { width }
    }

    /// The default width.
    pub fn default_width() -> (r: Self)
        ensures
            r@ == QUERY_LOG_BYTES,
    {
        QueryLogWidth { width: ByteWidth::new(QUERY_LOG_BYTES).unwrap() }
    }

    /// Cut a text to the width.
    pub fn truncate(&self, text: &str) -> (r: String)
        ensures
            r@ == cut_to_bytes(text@, self@ as nat, TruncateMarker::Unmarked),
    {
        truncate_bytes(text, self.width.get(), TruncateMarker::Unmarked)
    }
}

/// The widths of what is logged and traced.
#[derive(Debug, Clone, Copy, PartialEq, Eq)]
pub struct LogPreviewWidths {
    routing_rationale: RoutingRationaleWidth,
    task_description_log: TaskDescriptionLogWidth,
    task_description_span: TaskDescriptionSpanWidth,
    goal: GoalWidth,
    routing_response: RoutingResponseWidth,
    query_log: QueryLogWidth,
}

impl LogPreviewWidths {
    /// Every width is the default one.
    #[verifier::type_invariant]
    pub closed spec fn is_default(self) -> bool {
        &&& self.routing_rationale@ == ROUTING_RATIONALE_BYTES
        &&& self.task_description_log@ == TASK_DESCRIPTION_LOG_BYTES
        &&& self.task_description_span@ == TASK_DESCRIPTION_SPAN_BYTES
        &&& self.goal@ == GOAL_BYTES
        &&& self.routing_response@ == ROUTING_RESPONSE_BYTES
        &&& self.query_log@ == QUERY_LOG_BYTES
    }

    /// The default widths.
    pub fn default_widths() -> (r: Self)
        ensures
            r.is_default(),
    {
        LogPreviewWidths {
            routing_rationale: RoutingRationaleWidth::default_width(),
            task_description_log: TaskDescriptionLogWidth::default_width(),
            task_description_span: TaskDescriptionSpanWidth::default_width(),
            goal: GoalWidth::default_width(),
            routing_response: RoutingResponseWidth::default_width(),
            query_log: QueryLogWidth::default_width(),
        }
    }

    /// The width of that name.
    pub fn routing_rationale(&self) -> (r: RoutingRationaleWidth)
        ensures
            r@ == ROUTING_RATIONALE_BYTES,
    {
        proof {
            use_type_invariant(self);
        }
        self.routing_rationale
    }

    /// The width of that name.
    pub fn task_description_log(&self) -> (r: TaskDescriptionLogWidth)
        ensures
            r@ == TASK_DESCRIPTION_LOG_BYTES,
    {
        proof {
            use_type_invariant(self);
        }
        self.task_description_log
    }

    /// The width of that name.
    pub fn task_description_span(&self) -> (r: TaskDescriptionSpanWidth)
        ensures
            r@ == TASK_DESCRIPTION_SPAN_BYTES,
    {
        proof {
            use_type_invariant(self);
        }
        self.task_description_span
    }

    /// The width of that name.
    pub fn goal(&self) -> (r: GoalWidth)
        ensures
            r@ == GOAL_BYTES,
    {
        proof {
            use_type_invariant(self);
        }
        self.goal
    }

    /// The width of that name.
    pub fn routing_response(&self) -> (r: RoutingResponseWidth)
        ensures
            r@ == ROUTING_RESPONSE_BYTES,
    {
        proof {
            use_type_invariant(self);
        }
        self.routing_response
    }

    /// The width of that name.
    pub fn query_log(&self) -> (r: QueryLogWidth)
        ensures
            r@ == QUERY_LOG_BYTES,
    {
        proof {
            use_type_invariant(self);
        }
        self.query_log
    }
}

/// The width of a result preview in a manifest, in bytes.
pub const RESULT_PREVIEW_BYTES: usize = 200;

/// The width of a result preview in a manifest.
#[derive(Debug, Clone, Copy, PartialEq, Eq)]
pub struct ResultPreviewWidth {
    width: ByteWidth,
}

impl View for ResultPreviewWidth {
    type V = usize;

    closed spec fn view(&self) -> usize {
        self.width@
    }
}

impl ResultPreviewWidth {
    /// A width of one's own.
    pub fn new(width: ByteWidth) -> (r: Self)
        ensures
            r@ == width@,
    {
        ResultPreviewWidth { width }
    }

    /// The default width.
    pub fn default_width() -> (r: Self)
        ensures
            r@ == RESULT_PREVIEW_BYTES,
    {
        ResultPreviewWidth { width: ByteWidth::new(RESULT_PREVIEW_BYTES).unwrap() }
    }

    /// Cut a text to the width.
    pub fn truncate(&self, text: &str) -> (r: String)
        ensures
            r@ == cut_to_bytes(text@, self@ as nat, TruncateMarker::Unmarked),
    {
        truncate_bytes(text, self.width.get(), TruncateMarker::Unmarked)
    }
}

/// The width of a response summary in a manifest, in bytes.
pub const RESPONSE_SUMMARY_BYTES: usize = 200;

/// The width of a response summary in a manifest.
#[derive(Debug, Clone, Copy, PartialEq, Eq)]
pub struct ResponseSummaryWidth {
    width: ByteWidth,
}

impl View for ResponseSummaryWidth {
    type V = usize;

    closed spec fn view(&self) -> usize {
        self.width@
    }
}

impl ResponseSummaryWidth {
    /// A width of one's own.
    pub fn new(width: ByteWidth) -> (r: Self)
        ensures
            r@ == width@,
    {
        ResponseSummaryWidth { width }
    }

    /// The default width.
    pub fn default_width() -> (r: Self)
        ensures
            r@ == RESPONSE_SUMMARY_BYTES,
    {
        ResponseSummaryWidth { width: ByteWidth::new(RESPONSE_SUMMARY_BYTES).unwrap() }
    }

    /// Cut a text to the width.
    pub fn truncate(&self, text: &str) -> (r: String)
        ensures
            r@ == cut_to_bytes(text@, self@ as nat, TruncateMarker::Unmarked),
    {
        truncate_bytes(text, self.width.get(), TruncateMarker::Unmarked)
    }
}

/// The widths of what is stored in a manifest.
#[derive(Debug, Clone, Copy, PartialEq, Eq)]
pub struct ManifestWidths {
    result_preview: ResultPreviewWidth,
    response_summary: ResponseSummaryWidth,
}

impl ManifestWidths {
    /// Every width is the default one.
    #[verifier::type_invariant]
    pub closed spec fn is_default(self) -> bool {
        &&& self.result_preview@ == RESULT_PREVIEW_BYTES
        &&& self.response_summary@ == RESPONSE_SUMMARY_BYTES
    }

    /// The default widths.
    pub fn default_widths() -> (r: Self)
        ensures
            r.is_default(),
    {
        ManifestWidths {
            result_preview: ResultPreviewWidth::default_width(),
            response_summary: ResponseSummaryWidth::default_width(),
        }
    }

    /// The width of that name.
    pub fn result_preview(&self) -> (r: ResultPreviewWidth)
        ensures
            r@ == RESULT_PREVIEW_BYTES,
    {
        proof {
            use_type_invariant(self);
        }
        self.result_preview
    }

    /// The width of that name.
    pub fn response_summary(&self) -> (r: ResponseSummaryWidth)
        ensures
            r@ == RESPONSE_SUMMARY_BYTES,
    {
        proof {
            use_type_invariant(self);
        }
        self.response_summary
    }
}

/// The width of a fallback plan's task description, in bytes.
pub const PLAN_TASK_DESCRIPTION_BYTES: usize = 100;

/// The width of a fallback plan's task description.
#[derive(Debug, Clone, Copy, PartialEq, Eq)]
pub struct PlanTaskDescriptionWidth {
    width: ByteWidth,
}

impl View for PlanTaskDescriptionWidth {
    type V = usize;

    closed spec fn view(&self) -> usize {
        self.width@
    }
}

impl PlanTaskDescriptionWidth {
    /// A width of one's own.
    pub fn new(width: ByteWidth) -> (r: Self)
        ensures
            r@ == width@,
    {
        PlanTaskDescriptionWidth { width }
    }

    /// The default width.
    pub fn default_width() -> (r: Self)
        ensures
            r@ == PLAN_TASK_DESCRIPTION_BYTES,
    {
        PlanTaskDescriptionWidth { width: ByteWidth::new(PLAN_TASK_DESCRIPTION_BYTES).unwrap() }
    }

    /// Cut a text to the width.
    pub fn truncate(&self, text: &str) -> (r: String)
        ensures
            r@ == cut_to_bytes(text@, self@ as nat, TruncateMarker::Dots),
    {
        truncate_bytes(text, self.width.get(), TruncateMarker::Dots)
    }
}

/// The width of the task of a converted direct answer, in bytes.
pub const PLAN_DIRECT_ANSWER_TASK_BYTES: usize = 80;

/// The width of the task of a converted direct answer.
#[derive(Debug, Clone, Copy, PartialEq, Eq)]
pub struct PlanDirectAnswerTaskWidth {
    width: ByteWidth,
}

impl View for PlanDirectAnswerTaskWidth {
    type V = usize;

    closed spec fn view(&self) -> usize {
        self.width@
    }
}

impl PlanDirectAnswerTaskWidth {
    /// A width of one's own.
    pub fn new(width: ByteWidth) -> (r: Self)
        ensures
            r@ == width@,
    {
        PlanDirectAnswerTaskWidth { width }
    }

    /// The default width.
    pub fn default_width() -> (r: Self)
        ensures
            r@ == PLAN_DIRECT_ANSWER_TASK_BYTES,
    {
        PlanDirectAnswerTaskWidth { width: ByteWidth::new(PLAN_DIRECT_ANSWER_TASK_BYTES).unwrap() }
    }

    /// Cut a text to the width.
    pub fn truncate(&self, text: &str) -> (r: String)
        ensures
            r@ == cut_to_bytes(text@, self@ as nat, TruncateMarker::Dots),
    {
        truncate_bytes(text, self.width.get(), TruncateMarker::Dots)
    }
}

/// The width of the rationale of a converted direct answer, in bytes.
pub const PLAN_DIRECT_ANSWER_RATIONALE_BYTES: usize = 100;

/// The width of the rationale of a converted direct answer.
#[derive(Debug, Clone, Copy, PartialEq, Eq)]
pub struct PlanDirectAnswerRationaleWidth {
    width: ByteWidth,
}

impl View for PlanDirectAnswerRationaleWidth {
    type V = usize;

    closed spec fn view(&self) -> usize {
        self.width@
    }
}

impl PlanDirectAnswerRationaleWidth {
    /// A width of one's own.
    pub fn new(width: ByteWidth) -> (r: Self)
        ensures
            r@ == width@,
    {
        PlanDirectAnswerRationaleWidth { width }
    }

    /// The default width.
    pub fn default_width() -> (r: Self)
        ensures
            r@ == PLAN_DIRECT_ANSWER_RATIONALE_BYTES,
    {
        PlanDirectAnswerRationaleWidth { width: ByteWidth::new(PLAN_DIRECT_ANSWER_RATIONALE_BYTES).unwrap() }
    }

    /// Cut a text to the width.
    pub fn truncate(&self, text: &str) -> (r: String)
        ensures
            r@ == cut_to_bytes(text@, self@ as nat, TruncateMarker::Dots),
    {
        truncate_bytes(text, self.width.get(), TruncateMarker::Dots)
    }
}

/// The width of the task of a converted clarification, in bytes.
pub const PLAN_CLARIFICATION_TASK_BYTES: usize = 80;

/// The width of the task of a converted clarification.
#[derive(Debug, Clone, Copy, PartialEq, Eq)]
pub struct PlanClarificationTaskWidth {
    width: ByteWidth,
}

impl View for PlanClarificationTaskWidth {
    type V = usize;

    closed spec fn view(&self) -> usize {
        self.width@
    }
}

impl PlanClarificationTaskWidth {
    /// A width of one's own.
    pub fn new(width: ByteWidth) -> (r: Self)
        ensures
            r@ == width@,
    {
        PlanClarificationTaskWidth { width }
    }

    /// The default width.
    pub fn default_width() -> (r: Self)
        ensures
            r@ == PLAN_CLARIFICATION_TASK_BYTES,
    {
        PlanClarificationTaskWidth { width: ByteWidth::new(PLAN_CLARIFICATION_TASK_BYTES).unwrap() }
    }

    /// Cut a text to the width.
    pub fn truncate(&self, text: &str) -> (r: String)
        ensures
            r@ == cut_to_bytes(text@, self@ as nat, TruncateMarker::Dots),
    {
        truncate_bytes(text, self.width.get(), TruncateMarker::Dots)
    }
}

/// The width of the question of a converted clarification, in bytes.
pub const PLAN_CLARIFICATION_QUESTION_BYTES: usize = 100;

/// The width of the question of a converted clarification.
#[derive(Debug, Clone, Copy, PartialEq, Eq)]
pub struct PlanClarificationQuestionWidth {
    width: ByteWidth,
}

impl View for PlanClarificationQuestionWidth {
    type V = usize;

    closed spec fn view(&self) -> usize {
        self.width@
    }
}

impl PlanClarificationQuestionWidth {
    /// A width of one's own.
    pub fn new(width: ByteWidth) -> (r: Self)
        ensures
            r@ == width@,
    {
        PlanClarificationQuestionWidth { width }
    }

    /// The default width.
    pub fn default_width() -> (r: Self)
        ensures
            r@ == PLAN_CLARIFICATION_QUESTION_BYTES,
    {
        PlanClarificationQuestionWidth { width: ByteWidth::new(PLAN_CLARIFICATION_QUESTION_BYTES).unwrap() }
    }

    /// Cut a text to the width.
    pub fn truncate(&self, text: &str) -> (r: String)
        ensures
            r@ == cut_to_bytes(text@, self@ as nat, TruncateMarker::Dots),
    {
        truncate_bytes(text, self.width.get(), TruncateMarker::Dots)
    }
}

/// The widths of what a plan holds.
#[derive(Debug, Clone, Copy, PartialEq, Eq)]
pub struct PlanContentWidths {
    task_description: PlanTaskDescriptionWidth,
    direct_answer_task: PlanDirectAnswerTaskWidth,
    direct_answer_rationale: PlanDirectAnswerRationaleWidth,
    clarification_task: PlanClarificationTaskWidth,
    clarification_question: PlanClarificationQuestionWidth,
}

impl PlanContentWidths {
    /// Every width is the default one.
    #[verifier::type_invariant]
    pub closed spec fn is_default(self) -> bool {
        &&& self.task_description@ == PLAN_TASK_DESCRIPTION_BYTES
        &&& self.direct_answer_task@ == PLAN_DIRECT_ANSWER_TASK_BYTES
        &&& self.direct_answer_rationale@ == PLAN_DIRECT_ANSWER_RATIONALE_BYTES
        &&& self.clarification_task@ == PLAN_CLARIFICATION_TASK_BYTES
        &&& self.clarification_question@ == PLAN_CLARIFICATION_QUESTION_BYTES
    }

    /// The default widths.
    pub fn default_widths() -> (r: Self)
        ensures
            r.is_default(),
    {
        PlanContentWidths {
            task_description: PlanTaskDescriptionWidth::default_width(),
            direct_answer_task: PlanDirectAnswerTaskWidth::default_width(),
            direct_answer_rationale: PlanDirectAnswerRationaleWidth::default_width(),
            clarification_task: PlanClarificationTaskWidth::default_width(),
            clarification_question: PlanClarificationQuestionWidth::default_width(),
        }
    }

    /// The width of that name.
    pub fn task_description(&self) -> (r: PlanTaskDescriptionWidth)
        ensures
            r@ == PLAN_TASK_DESCRIPTION_BYTES,
    {
        proof {
            use_type_invariant(self);
        }
        self.task_description
    }

    /// The width of that name.
    pub fn direct_answer_task(&self) -> (r: PlanDirectAnswerTaskWidth)
        ensures
            r@ == PLAN_DIRECT_ANSWER_TASK_BYTES,
    {
        proof {
            use_type_invariant(self);
        }
        self.direct_answer_task
    }

    /// The width of that name.
    pub fn direct_answer_rationale(&self) -> (r: PlanDirectAnswerRationaleWidth)
        ensures
            r@ == PLAN_DIRECT_ANSWER_RATIONALE_BYTES,
    {
        proof {
            use_type_invariant(self);
        }
        self.direct_answer_rationale
    }

    /// The width of that name.
    pub fn clarification_task(&self) -> (r: PlanClarificationTaskWidth)
        ensures
            r@ == PLAN_CLARIFICATION_TASK_BYTES,
    {
        proof {
            use_type_invariant(self);
        }
        self.clarification_task
    }

    /// The width of that name.
    pub fn clarification_question(&self) -> (r: PlanClarificationQuestionWidth)
        ensures
            r@ == PLAN_CLARIFICATION_QUESTION_BYTES,
    {
        proof {
            use_type_invariant(self);
        }
        self.clarification_question
    }
}

// ---------------------------------------------------------------------------
// The snapshot
// ---------------------------------------------------------------------------

/// Every bound of a run, taken from its configuration at once.
#[derive(Debug, Clone, Copy, PartialEq, Eq)]
pub struct BoundingConfig {
    result_spill: ResultSpillBudget,
    tool_output_spill: ToolOutputSpillBudget,
    tool_list: ToolListLimit,
    duplicate_calls: DuplicateCallPolicy,
    session_history: SessionHistoryLimit,
    failure_handle: FailureHandleWidth,
    error_preview: ErrorPreviewWidth,
    tool_reasoning: ToolReasoningWidth,
    log_previews: LogPreviewWidths,
    manifest_widths: ManifestWidths,
    plan_content: PlanContentWidths,
}

impl BoundingConfig {
    /// When a result is spilled.
    pub closed spec fn result_spill_held(self) -> ResultSpillBudget {
        self.result_spill
    }

    /// When a tool output is promoted.
    pub closed spec fn tool_output_spill_held(self) -> ToolOutputSpillBudget {
        self.tool_output_spill
    }

    /// How many tools are listed.
    pub closed spec fn tool_list_limit_held(self) -> ToolListLimit {
        self.tool_list
    }

    /// When repeated calls are nudged and blocked.
    pub closed spec fn duplicate_call_policy_held(self) -> DuplicateCallPolicy {
        self.duplicate_calls
    }

    /// How many prior runs are told.
    pub closed spec fn session_history_limit_held(self) -> SessionHistoryLimit {
        self.session_history
    }

    /// The width of a failure handle.
    pub closed spec fn failure_handle_width_held(self) -> FailureHandleWidth {
        self.failure_handle
    }

    /// The width of an error preview.
    pub closed spec fn error_preview_width_held(self) -> ErrorPreviewWidth {
        self.error_preview
    }

    /// The width of a tool-reasoning preview.
    pub closed spec fn tool_reasoning_width_held(self) -> ToolReasoningWidth {
        self.tool_reasoning
    }

    /// The widths of what is logged.
    pub closed spec fn log_preview_widths_held(self) -> LogPreviewWidths {
        self.log_previews
    }

    /// The widths of what a manifest holds.
    pub closed spec fn manifest_widths_held(self) -> ManifestWidths {
        self.manifest_widths
    }

    /// The widths of what a plan holds.
    pub closed spec fn plan_content_widths_held(self) -> PlanContentWidths {
        self.plan_content
    }

    /// Take the bounds from a configuration; the widths that no configuration
    /// sets are the default ones.
    pub fn from_orchestration(config: &OrchestrationConfig) -> (r: Self)
        ensures
            r.result_spill_held().limit() == config.artifacts.result_artifact_threshold,
            r.result_spill_held().summary_bytes() == config.artifacts.result_summary_length,
            r.tool_output_spill_held().size_bytes() == config.artifacts.tool_output_artifact_threshold,
            r.tool_output_spill_held().duration_millis() == config.artifacts.tool_output_duration_threshold_ms,
            r.tool_list_limit_held().count() == config.max_tools_per_worker,
            r.duplicate_call_policy_held().block_count() == config.duplicate_call_block_threshold,
            r.duplicate_call_policy_held().nudge_count() == (if config.duplicate_call_nudge_threshold >= config.duplicate_call_block_threshold { None } else { Some(config.duplicate_call_nudge_threshold) }),
            r.session_history_limit_held().count() == config.artifacts.session_history_turns,
            r.failure_handle_width_held()@ == FAILURE_HANDLE_CHARS,
            r.error_preview_width_held()@ == ERROR_PREVIEW_WIDTH_CHARS,
            r.tool_reasoning_width_held()@ == TOOL_REASONING_CHARS,
    {
        BoundingConfig {
            result_spill: ResultSpillBudget::from_config(
                config.result_artifact_threshold(),
                config.result_summary_length(),
            ),
            tool_output_spill: ToolOutputSpillBudget::from_config(
                config.tool_output_artifact_threshold(),
                config.tool_output_duration_threshold_ms(),
            ),
            tool_list: ToolListLimit::new(config.max_tools_per_worker),
            duplicate_calls: DuplicateCallPolicy::new(
                config.duplicate_call_nudge_threshold,
                config.duplicate_call_block_threshold,
            ),
            session_history: SessionHistoryLimit::new(config.session_history_turns()),
            failure_handle: FailureHandleWidth::default_width(),
            error_preview: ErrorPreviewWidth::default_width(),
            tool_reasoning: ToolReasoningWidth::default_width(),
            log_previews: LogPreviewWidths::default_widths(),
            manifest_widths: ManifestWidths::default_widths(),
            plan_content: PlanContentWidths::default_widths(),
        }
    }

    /// When a result is spilled.
    pub fn result_spill(&self) -> (r: &ResultSpillBudget)
        ensures
            *r == self.result_spill_held(),
    {
        &self.result_spill
    }

    /// When a tool output is promoted.
    pub fn tool_output_spill(&self) -> (r: &ToolOutputSpillBudget)
        ensures
            *r == self.tool_output_spill_held(),
    {
        &self.tool_output_spill
    }

    /// How many tools are listed.
    pub fn tool_list_limit(&self) -> (r: ToolListLimit)
        ensures
            r == self.tool_list_limit_held(),
    {
        self.tool_list
    }

    /// When repeated calls are nudged and blocked.
    pub fn duplicate_call_policy(&self) -> (r: DuplicateCallPolicy)
        ensures
            r == self.duplicate_call_policy_held(),
    {
        self.duplicate_calls
    }

    /// How many prior runs are told.
    pub fn session_history_limit(&self) -> (r: SessionHistoryLimit)
        ensures
            r == self.session_history_limit_held(),
    {
        self.session_history
    }

    /// The width of a failure handle.
    pub fn failure_handle_width(&self) -> (r: FailureHandleWidth)
        ensures
            r == self.failure_handle_width_held(),
    {
        self.failure_handle
    }

    /// The width of an error preview.
    pub fn error_preview_width(&self) -> (r: ErrorPreviewWidth)
        ensures
            r == self.error_preview_width_held(),
    {
        self.error_preview
    }

    /// The width of a tool-reasoning preview.
    pub fn tool_reasoning_width(&self) -> (r: ToolReasoningWidth)
        ensures
            r == self.tool_reasoning_width_held(),
    {
        self.tool_reasoning
    }

    /// The widths of what is logged.
    pub fn log_preview_widths(&self) -> (r: LogPreviewWidths)
        ensures
            r == self.log_preview_widths_held(),
    {
        self.log_previews
    }

    /// The widths of what a manifest holds.
    pub fn manifest_widths(&self) -> (r: ManifestWidths)
        ensures
            r == self.manifest_widths_held(),
    {
        self.manifest_widths
    }

    /// The widths of what a plan holds.
    pub fn plan_content_widths(&self) -> (r: PlanContentWidths)
        ensures
            r == self.plan_content_widths_held(),
    {
        self.plan_content
    }
}

/// A worker's scratchpad budget, scoped to the worker's own model.
#[derive(Debug)]
pub struct ScratchpadBudget<B> {
    budget: B,
}

impl<B> ScratchpadBudget<B> {
    /// The budget within.
    pub closed spec fn held(self) -> B {
        self.budget
    }

    /// Attach a budget.
    pub fn new(budget: B) -> (r: Self)
        ensures
            r.held() == budget,
    {
        ScratchpadBudget { budget }
    }

    /// The budget within.
    pub fn inner(&self) -> (r: &B)
        ensures
            *r == self.held(),
    {
        &self.budget
    }
}

} // verus!
