//! Evidence-framed task entries.
//!
//! Completed, failed and blocked entries carry a correlation label and what
//! the worker itself reported. None of them can hold the text of the task.
use super::error::ContextError;
use super::label::{role_text, CorrelationLabel, WorkerClaim, WorkerRole};
use super::rendered::RenderedContext;
use crate::orchestration::types::{Confidence, FailureCategory};
use crate::text::numerals::{
    digit_value, lemma_numeral_digits, law_numeral_round_trip, numeral, parse_usize, parsed_usize,
    u64_text, usize_text,
};
use crate::text::search::{
    contains_text, find, first_of, last_of, lemma_find_from, lemma_first_of_is, lemma_last_of_is,
    lemma_rfind_from, occurs_at, rfind, skip,
};
use crate::text::trim::{
    join, joined, lemma_trimmed_end, lemma_trimmed_end_concat, lines, split_lines, trim_end,
    trimmed_end, views,
};
use crate::text::{blank, is_blank, is_white_space, to_chars, truncate_to_chars, char_prefix};
use vstd::prelude::*;

verus! {

// ---------------------------------------------------------------------------
// The spill footer
// ---------------------------------------------------------------------------

/// How the footer of a spilled result begins.
pub const FOOTER_PREFIX: &'static str = "[Full result (";

/// What stands between the footer's length and its file name.
pub const FOOTER_INFIX: &'static str = " chars) saved to artifact: ";

/// The footer of a result of `full_chars` characters spilled to `filename`.
pub open spec fn footer_text(filename: Seq<char>, full_chars: usize) -> Seq<char> {
    FOOTER_PREFIX@ + numeral(full_chars as nat) + FOOTER_INFIX@ + filename + "]"@
}

/// A well-formed footer at the end of a text.
pub struct FooterModel {
    /// Where the footer starts, in characters.
    pub start: int,
    /// The artifact's file name.
    pub filename: Seq<char>,
    /// The length of the full result, in characters.
    pub full_chars: usize,
}

/// The footer that a text ends with: the last place where a footer begins is
/// followed by a number, the infix, a file name that is not blank, and a
/// closing bracket with nothing but white space after it.
pub open spec fn trailing_footer(text: Seq<char>) -> Option<FooterModel> {
    match last_of(text, FOOTER_PREFIX@) {
        None => None,
        Some(start) => {
            let after_prefix = text.skip(start + FOOTER_PREFIX@.len());
            match first_of(after_prefix, FOOTER_INFIX@) {
                None => None,
                Some(i) => {
                    let rest = trimmed_end(after_prefix.skip(i + FOOTER_INFIX@.len()));
                    match parsed_usize(after_prefix.take(i)) {
                        None => None,
                        Some(full_chars) => if rest.len() > 0 && rest.last() == ']' && !is_blank(
                            rest.drop_last(),
                        ) {
                            Some(FooterModel { start, filename: rest.drop_last(), full_chars })
                        } else {
                            None
                        },
                    }
                },
            }
        },
    }
}

/// A footer found at the end of a text.
struct TrailingFooter {
    start: usize,
    artifact: SpilledArtifact,
}

/// Read the footer that a text ends with. Text that merely mentions how a
/// footer begins has none.
fn parse_trailing_footer(text: &str) -> (r: Option<TrailingFooter>)
    ensures
        match r {
            Some(footer) => {
                &&& footer.start <= text@.len()
                &&& trailing_footer(text@) == Some(
                    FooterModel {
                        start: footer.start as int,
                        filename: footer.artifact.file(),
                        full_chars: footer.artifact.chars(),
                    },
                )
            },
            None => trailing_footer(text@) is None,
        },
{
    let start = match rfind(text, FOOTER_PREFIX) {
        Some(start) => start,
        None => {
            return None;
        },
    };
    let text_len = text.unicode_len();
    let prefix_len = FOOTER_PREFIX.unicode_len();
    let after_prefix = skip(text, start + prefix_len);
    let place = match find(after_prefix, FOOTER_INFIX) {
        Some(i) => i,
        None => {
            return None;
        },
    };
    let infix_len = FOOTER_INFIX.unicode_len();
    let digits = after_prefix.substring_char(0, place);
    let full_chars = match parse_usize(digits) {
        Some(n) => n,
        None => {
            return None;
        },
    };
    let rest = trim_end(skip(after_prefix, place + infix_len));
    let rest_chars = to_chars(rest);
    if rest_chars.len() == 0 || rest_chars[rest_chars.len() - 1] != ']' {
        return None;
    }
    let filename = rest.substring_char(0, rest_chars.len() - 1);
    assert(filename@ =~= rest@.drop_last());
    match SpilledArtifact::new(filename, full_chars) {
        Ok(artifact) => Some(TrailingFooter { start, artifact }),
        Err(_) => None,
    }
}

// ---------------------------------------------------------------------------
// Labels and indentation
// ---------------------------------------------------------------------------

/// The parenthesized suffix of an entry's first line.
pub open spec fn label_suffix_text(
    worker: Option<Seq<char>>,
    confidence: Option<Confidence>,
) -> Seq<char> {
    match (worker, confidence) {
        (Some(w), Some(c)) => " ("@ + w + ", confidence: "@ + c.name() + ")"@,
        (Some(w), None) => " ("@ + w + ")"@,
        (None, Some(c)) => " (confidence: "@ + c.name() + ")"@,
        (None, None) => Seq::empty(),
    }
}

fn label_suffix(worker: &Option<WorkerRole>, confidence: Option<Confidence>) -> (r: String)
    ensures
        r@ == label_suffix_text(role_text(*worker), confidence),
{
    match (worker, confidence) {
        (Some(w), Some(c)) => {
            let mut s = " (".to_owned();
            s.append(w.as_str());
            s.append(", confidence: ");
            s.append(c.as_str());
            s.append(")");
            s
        },
        (Some(w), None) => {
            let mut s = " (".to_owned();
            s.append(w.as_str());
            s.append(")");
            s
        },
        (None, Some(c)) => {
            let mut s = " (confidence: ".to_owned();
            s.append(c.as_str());
            s.append(")");
            s
        },
        (None, None) => String::new(),
    }
}

/// Each line with four spaces before it.
pub open spec fn indented_lines(parts: Seq<Seq<char>>) -> Seq<Seq<char>> {
    Seq::new(parts.len(), |i: int| "    "@ + parts[i])
}

/// The lines of a text, each indented by four spaces.
pub open spec fn indented(text: Seq<char>) -> Seq<char> {
    joined(indented_lines(lines(text)), "\n"@)
}

/// Indent each line by four spaces.
pub(super) fn indent(text: &str) -> (r: String)
    ensures
        r@ == indented(text@),
{
    let parts = split_lines(text);
    let mut out: Vec<String> = Vec::new();
    let mut i: usize = 0;
    while i < parts.len()
        invariant
            i <= parts.len(),
            views(parts@) == lines(text@),
            views(out@) == indented_lines(lines(text@)).take(i as int),
        decreases parts.len() - i,
    {
        let mut line = "    ".to_owned();
        line.append(parts[i].as_str());
        let ghost before = out@;
        out.push(line);
        proof {
            assert(views(parts@)[i as int] == parts@[i as int]@);
            assert(views(out@) =~= views(before).push(line@));
            assert(indented_lines(lines(text@)).take(i + 1) =~= indented_lines(lines(text@)).take(
                i as int,
            ).push("    "@ + parts@[i as int]@));
        }
        i = i + 1;
    }
    assert(indented_lines(lines(text@)).take(i as int) =~= indented_lines(lines(text@)));
    join(&out, "\n")
}

// ---------------------------------------------------------------------------
// Evidence values
// ---------------------------------------------------------------------------

/// Worker-authored result text that stands inline in an entry. It never ends
/// with a spill footer.
#[derive(Debug, PartialEq, Eq)]
pub struct EvidenceText {
    text: String,
}

impl View for EvidenceText {
    type V = Seq<char>;

    closed spec fn view(&self) -> Seq<char> {
        self.text@
    }
}

impl Clone for EvidenceText {
    fn clone(&self) -> (r: Self)
        ensures
            r == *self,
    {
        proof {
            use_type_invariant(self);
        }
        EvidenceText { text: self.text.clone() }
    }
}

impl EvidenceText {
    #[verifier::type_invariant]
    spec fn valid(self) -> bool {
        !is_blank(self.text@) && trailing_footer(self.text@) is None
    }

    /// Accept inline text: not blank, and without a trailing footer. It
    /// rejects exactly the text whose footer [`SpilledArtifact::parse_trailing`]
    /// reads.
    pub fn new(text: &str) -> (r: Result<Self, ContextError>)
        ensures
            match r {
                Ok(v) => !is_blank(text@) && trailing_footer(text@) is None && v@ == text@,
                Err(e) => {
                    ||| is_blank(text@) && e == ContextError::EmptyEvidenceText
                    ||| !is_blank(text@) && trailing_footer(text@) is Some && e
                        == ContextError::InlineEvidenceCarriesSpillFooter
                },
            },
    {
        if blank(text) {
            return Err(ContextError::EmptyEvidenceText);
        }
        if parse_trailing_footer(text).is_some() {
            return Err(ContextError::InlineEvidenceCarriesSpillFooter);
        }
        Ok(EvidenceText { text: text.to_owned() })
    }

    /// The text.
    pub fn as_str(&self) -> (r: &str)
        ensures
            r@ == self@,
            !is_blank(r@),
            trailing_footer(r@) is None,
    {
        proof {
            use_type_invariant(self);
        }
        self.text.as_str()
    }
}

/// A bounded preview of a raw result, for a worker that attested no summary.
#[derive(Debug, PartialEq, Eq)]
pub struct ResultPreview {
    text: String,
}

impl View for ResultPreview {
    type V = Seq<char>;

    closed spec fn view(&self) -> Seq<char> {
        self.text@
    }
}

impl Clone for ResultPreview {
    fn clone(&self) -> (r: Self)
        ensures
            r == *self,
    {
        proof {
            use_type_invariant(self);
        }
        ResultPreview { text: self.text.clone() }
    }
}

impl ResultPreview {
    #[verifier::type_invariant]
    spec fn valid(self) -> bool {
        !is_blank(self.text@)
    }

    /// Accept a preview that is not blank, exactly as it is.
    pub fn new(text: &str) -> (r: Result<Self, ContextError>)
        ensures
            match r {
                Ok(v) => !is_blank(text@) && v@ == text@,
                Err(e) => is_blank(text@) && e == ContextError::EmptyResultPreview,
            },
    {
        if blank(text) {
            return Err(ContextError::EmptyResultPreview);
        }
        Ok(ResultPreview { text: text.to_owned() })
    }

    /// The text.
    pub fn as_str(&self) -> (r: &str)
        ensures
            r@ == self@,
            !is_blank(r@),
    {
        proof {
            use_type_invariant(self);
        }
        self.text.as_str()
    }
}

/// Pointer to a result that was spilled to an artifact file.
#[derive(Debug, PartialEq, Eq)]
pub struct SpilledArtifact {
    filename: String,
    full_chars: usize,
}

impl Clone for SpilledArtifact {
    fn clone(&self) -> (r: Self)
        ensures
            r == *self,
    {
        proof {
            use_type_invariant(self);
        }
        SpilledArtifact { filename: self.filename.clone(), full_chars: self.full_chars }
    }
}

impl SpilledArtifact {
    #[verifier::type_invariant]
    spec fn valid(self) -> bool {
        !is_blank(self.filename@)
    }

    /// The text of the file name.
    pub closed spec fn file(self) -> Seq<char> {
        self.filename@
    }

    /// The length of the full result, in characters.
    pub closed spec fn chars(self) -> usize {
        self.full_chars
    }

    /// Point at a file whose name is not blank.
    pub fn new(filename: &str, full_chars: usize) -> (r: Result<Self, ContextError>)
        ensures
            match r {
                Ok(v) => !is_blank(filename@) && v.file() == filename@ && v.chars() == full_chars,
                Err(e) => is_blank(filename@) && e == ContextError::EmptyArtifactFilename,
            },
    {
        if blank(filename) {
            return Err(ContextError::EmptyArtifactFilename);
        }
        Ok(SpilledArtifact { filename: filename.to_owned(), full_chars })
    }

    /// Read the pointer out of the footer that a text ends with.
    pub fn parse_trailing(text: &str) -> (r: Option<Self>)
        ensures
            match r {
                Some(v) => trailing_footer(text@) matches Some(m) && m.filename == v.file()
                    && m.full_chars == v.chars(),
                None => trailing_footer(text@) is None,
            },
    {
        match parse_trailing_footer(text) {
            Some(footer) => Some(footer.artifact),
            None => None,
        }
    }

    /// The artifact's file name.
    pub fn filename(&self) -> (r: &str)
        ensures
            r@ == self.file(),
            !is_blank(r@),
    {
        proof {
            use_type_invariant(self);
        }
        self.filename.as_str()
    }

    /// The footer: `[Full result (N chars) saved to artifact: FILE]`.
    pub fn to_string(&self) -> (r: String)
        ensures
            r@ == footer_text(self.file(), self.chars()),
    {
        let mut s = FOOTER_PREFIX.to_owned();
        s.append(usize_text(self.full_chars).as_str());
        s.append(FOOTER_INFIX);
        s.append(self.filename.as_str());
        s.append("]");
        s
    }
}

/// A line of a completed task's artifact inventory.
#[derive(Debug, PartialEq, Eq)]
pub struct ArtifactRef {
    filename: String,
    bytes: u64,
}

/// The inventory line of a file of `bytes` bytes.
pub open spec fn inventory_text(filename: Seq<char>, bytes: u64) -> Seq<char> {
    "[Artifact: "@ + filename + " ("@ + numeral(bytes as nat) + " bytes)]"@
}

impl Clone for ArtifactRef {
    fn clone(&self) -> (r: Self)
        ensures
            r == *self,
    {
        proof {
            use_type_invariant(self);
        }
        ArtifactRef { filename: self.filename.clone(), bytes: self.bytes }
    }
}

impl ArtifactRef {
    #[verifier::type_invariant]
    spec fn valid(self) -> bool {
        !is_blank(self.filename@)
    }

    /// The text of the file name.
    pub closed spec fn file(self) -> Seq<char> {
        self.filename@
    }

    /// The size of the file.
    pub closed spec fn size(self) -> u64 {
        self.bytes
    }

    /// Refer to a file whose name is not blank.
    pub fn new(filename: &str, bytes: u64) -> (r: Result<Self, ContextError>)
        ensures
            match r {
                Ok(v) => !is_blank(filename@) && v.file() == filename@ && v.size() == bytes,
                Err(e) => is_blank(filename@) && e == ContextError::EmptyArtifactFilename,
            },
    {
        if blank(filename) {
            return Err(ContextError::EmptyArtifactFilename);
        }
        Ok(ArtifactRef { filename: filename.to_owned(), bytes })
    }

    /// The artifact's file name.
    pub fn filename(&self) -> (r: &str)
        ensures
            r@ == self.file(),
            !is_blank(r@),
    {
        proof {
            use_type_invariant(self);
        }
        self.filename.as_str()
    }

    /// The inventory line: `[Artifact: FILE (N bytes)]`.
    pub fn to_string(&self) -> (r: String)
        ensures
            r@ == inventory_text(self.file(), self.size()),
    {
        let mut s = "[Artifact: ".to_owned();
        s.append(self.filename.as_str());
        s.append(" (");
        s.append(u64_text(self.bytes).as_str());
        s.append(" bytes)]");
        s
    }
}

/// What stands for a spilled result beside its pointer.
#[derive(Debug, PartialEq, Eq)]
pub enum ArtifactStandIn {
    /// The worker's own attested summary.
    Claim(WorkerClaim),
    /// A bounded preview of the raw result.
    Preview(ResultPreview),
}

impl ArtifactStandIn {
    /// The text that stands in.
    pub open spec fn text(self) -> Seq<char> {
        match self {
            ArtifactStandIn::Claim(claim) => claim.summary_text(),
            ArtifactStandIn::Preview(preview) => preview@,
        }
    }

    fn as_str(&self) -> (r: &str)
        ensures
            r@ == self.text(),
    {
        match self {
            ArtifactStandIn::Claim(claim) => claim.summary(),
            ArtifactStandIn::Preview(preview) => preview.as_str(),
        }
    }
}

impl Clone for ArtifactStandIn {
    fn clone(&self) -> (r: Self)
        ensures
            r == *self,
    {
        match self {
            ArtifactStandIn::Claim(claim) => ArtifactStandIn::Claim(claim.clone()),
            ArtifactStandIn::Preview(preview) => ArtifactStandIn::Preview(preview.clone()),
        }
    }
}

/// What a worker reported about one task. A spilled result never stands
/// without its pointer.
#[derive(Debug, PartialEq, Eq)]
#[allow(inconsistent_fields)]
pub enum EvidenceEntry {
    /// Result text inlined in the entry, with the worker's claim where there
    /// is one.
    InlineResult { result: EvidenceText, claim: Option<WorkerClaim> },
    /// A spilled result: a stand-in and the pointer to the full result.
    ArtifactPointer { stand_in: ArtifactStandIn, artifact: SpilledArtifact },
    /// A spilled result with no inline content at all.
    ArtifactPointerOnly { artifact: SpilledArtifact },
    /// An attested summary alone, for a result that lost its body to the
    /// frame's budget.
    SummaryOnly { claim: WorkerClaim },
}

/// What stands in the place of the text of a spilled result that has none.
pub const NO_PREVIEW: &'static str = "(no inline preview)";

/// A clone of an optional claim.
fn clone_claim(claim: &Option<WorkerClaim>) -> (r: Option<WorkerClaim>)
    ensures
        r == *claim,
{
    match claim {
        Some(c) => Some(c.clone()),
        None => None,
    }
}

impl Clone for EvidenceEntry {
    fn clone(&self) -> (r: Self)
        ensures
            r == *self,
    {
        match self {
            EvidenceEntry::InlineResult { result, claim } => EvidenceEntry::InlineResult {
                result: result.clone(),
                claim: clone_claim(claim),
            },
            EvidenceEntry::ArtifactPointer { stand_in, artifact } => {
                EvidenceEntry::ArtifactPointer {
                    stand_in: stand_in.clone(),
                    artifact: artifact.clone(),
                }
            },
            EvidenceEntry::ArtifactPointerOnly { artifact } => EvidenceEntry::ArtifactPointerOnly {
                artifact: artifact.clone(),
            },
            EvidenceEntry::SummaryOnly { claim } => EvidenceEntry::SummaryOnly {
                claim: claim.clone(),
            },
        }
    }
}

impl EvidenceEntry {
    /// The claim that the entry carries.
    pub open spec fn carried_claim(self) -> Option<WorkerClaim> {
        match self {
            EvidenceEntry::InlineResult { result, claim } => claim,
            EvidenceEntry::ArtifactPointer { stand_in, artifact } => match stand_in {
                ArtifactStandIn::Claim(claim) => Some(claim),
                ArtifactStandIn::Preview(_) => None,
            },
            EvidenceEntry::ArtifactPointerOnly { artifact } => None,
            EvidenceEntry::SummaryOnly { claim } => Some(claim),
        }
    }

    /// The text of the entry's body, without the footer.
    pub open spec fn body_text(self) -> Seq<char> {
        match self {
            EvidenceEntry::InlineResult { result, claim } => result@,
            EvidenceEntry::ArtifactPointer { stand_in, artifact } => stand_in.text(),
            EvidenceEntry::ArtifactPointerOnly { artifact } => NO_PREVIEW@,
            EvidenceEntry::SummaryOnly { claim } => claim.summary_text(),
        }
    }

    /// The footer of a spilled result.
    pub open spec fn spill_footer(self) -> Option<Seq<char>> {
        match self {
            EvidenceEntry::ArtifactPointer { stand_in, artifact } => Some(
                footer_text(artifact.file(), artifact.chars()),
            ),
            EvidenceEntry::ArtifactPointerOnly { artifact } => Some(
                footer_text(artifact.file(), artifact.chars()),
            ),
            _ => None,
        }
    }

    /// Classify a completed worker's result by the footer that it ends with:
    /// with one, the entry is a pointer, beside the claim or else beside the
    /// text before the footer; without one, the result stands inline. No text
    /// is ever both.
    pub fn from_completed_result(
        result_text: &str,
        claim: Option<WorkerClaim>,
    ) -> (r: Result<Self, ContextError>)
        ensures
            match trailing_footer(result_text@) {
                Some(m) => {
                    let before = trimmed_end(result_text@.take(m.start));
                    if claim is None && is_blank(before) {
                        r == Err::<Self, ContextError>(ContextError::EmptyResultPreview)
                    } else {
                        &&& r matches Ok(EvidenceEntry::ArtifactPointer { stand_in, artifact })
                        &&& artifact.file() == m.filename
                        &&& artifact.chars() == m.full_chars
                        &&& match claim {
                            Some(c) => stand_in == ArtifactStandIn::Claim(c),
                            None => stand_in matches ArtifactStandIn::Preview(p) && p@ == before,
                        }
                    }
                },
                None => if is_blank(result_text@) {
                    r == Err::<Self, ContextError>(ContextError::EmptyEvidenceText)
                } else {
                    r matches Ok(EvidenceEntry::InlineResult { result, claim: c }) && result@
                        == result_text@ && c == claim
                },
            },
    {
        match parse_trailing_footer(result_text) {
            Some(footer) => {
                let stand_in = match claim {
                    Some(claim) => ArtifactStandIn::Claim(claim),
                    None => {
                        let before = trim_end(result_text.substring_char(0, footer.start));
                        match ResultPreview::new(before) {
                            Ok(preview) => ArtifactStandIn::Preview(preview),
                            Err(e) => {
                                return Err(e);
                            },
                        }
                    },
                };
                Ok(EvidenceEntry::ArtifactPointer { stand_in, artifact: footer.artifact })
            },
            None => match EvidenceText::new(result_text) {
                Ok(result) => Ok(EvidenceEntry::InlineResult { result, claim }),
                Err(e) => Err(e),
            },
        }
    }

    /// The entry of a spilled result with no inline content.
    pub fn spilled_no_preview(artifact: SpilledArtifact) -> (r: Self)
        ensures
            r == (EvidenceEntry::ArtifactPointerOnly { artifact }),
    {
        EvidenceEntry::ArtifactPointerOnly { artifact }
    }

    /// The claim that the entry carries.
    pub fn claim(&self) -> (r: Option<&WorkerClaim>)
        ensures
            match r {
                Some(c) => self.carried_claim() == Some(*c),
                None => self.carried_claim() is None,
            },
    {
        match self {
            EvidenceEntry::InlineResult { claim, .. } => match claim {
                Some(c) => Some(c),
                None => None,
            },
            EvidenceEntry::ArtifactPointer { stand_in, .. } => match stand_in {
                ArtifactStandIn::Claim(c) => Some(c),
                ArtifactStandIn::Preview(_) => None,
            },
            EvidenceEntry::ArtifactPointerOnly { .. } => None,
            EvidenceEntry::SummaryOnly { claim } => Some(claim),
        }
    }

    /// The entry's body, and the footer of a spilled result.
    pub fn body_parts(&self) -> (r: (String, Option<String>))
        ensures
            r.0@ == self.body_text(),
            match r.1 {
                Some(footer) => self.spill_footer() == Some(footer@),
                None => self.spill_footer() is None,
            },
    {
        match self {
            EvidenceEntry::InlineResult { result, .. } => (result.as_str().to_owned(), None),
            EvidenceEntry::ArtifactPointer { stand_in, artifact } => {
                (stand_in.as_str().to_owned(), Some(artifact.to_string()))
            },
            EvidenceEntry::ArtifactPointerOnly { artifact } => {
                (NO_PREVIEW.to_owned(), Some(artifact.to_string()))
            },
            EvidenceEntry::SummaryOnly { claim } => (claim.summary().to_owned(), None),
        }
    }
}

/// Error text cut to a bound, with a marker where something was cut.
#[derive(Debug, PartialEq, Eq)]
pub struct ErrorPreview {
    text: String,
    truncated: bool,
}

/// The bound on an error preview, in characters.
pub const ERROR_PREVIEW_CHARS: usize = 2000;

/// The marker of a cut error.
pub const ERROR_TRUNCATION_MARKER: &'static str = " [truncated]";

impl Clone for ErrorPreview {
    fn clone(&self) -> (r: Self)
        ensures
            r == *self,
    {
        proof {
            use_type_invariant(self);
        }
        ErrorPreview { text: self.text.clone(), truncated: self.truncated }
    }
}

impl ErrorPreview {
    /// The bound on the text, in characters.
    pub const MAX_CHARS: usize = ERROR_PREVIEW_CHARS;

    /// The marker that [`Self::to_string`] appends where the text was cut.
    pub const TRUNCATION_MARKER: &'static str = ERROR_TRUNCATION_MARKER;

    #[verifier::type_invariant]
    spec fn valid(self) -> bool {
        self.text@.len() <= ERROR_PREVIEW_CHARS
    }

    /// The bounded text.
    pub closed spec fn bounded_text(self) -> Seq<char> {
        self.text@
    }

    /// Whether something was cut.
    pub closed spec fn is_cut(self) -> bool {
        self.truncated
    }

    /// The text with the marker where it was cut.
    pub open spec fn shown(self) -> Seq<char> {
        if self.is_cut() {
            self.bounded_text() + ERROR_TRUNCATION_MARKER@
        } else {
            self.bounded_text()
        }
    }

    /// Keep the first characters of an error, up to the bound.
    pub fn new(raw_error: &str) -> (r: Self)
        ensures
            r.bounded_text() == char_prefix(raw_error@, ERROR_PREVIEW_CHARS as nat),
            r.is_cut() == (raw_error@.len() > ERROR_PREVIEW_CHARS),
    {
        let (kept, cut) = truncate_to_chars(raw_error, ERROR_PREVIEW_CHARS);
        ErrorPreview { text: kept.to_owned(), truncated: cut }
    }

    /// The bounded text.
    pub fn as_str(&self) -> (r: &str)
        ensures
            r@ == self.bounded_text(),
            r@.len() <= ERROR_PREVIEW_CHARS,
    {
        proof {
            use_type_invariant(self);
        }
        self.text.as_str()
    }

    /// Whether something was cut.
    pub fn was_truncated(&self) -> (r: bool)
        ensures
            r == self.is_cut(),
    {
        self.truncated
    }

    /// The bounded text, with the marker where something was cut.
    pub fn to_string(&self) -> (r: String)
        ensures
            r@ == self.shown(),
    {
        let mut s = self.text.clone();
        if self.truncated {
            s.append(ERROR_TRUNCATION_MARKER);
        }
        s
    }
}

// ---------------------------------------------------------------------------
// Entries
// ---------------------------------------------------------------------------

/// A completed task's entry.
#[derive(Debug, PartialEq, Eq)]
pub struct CompletedEntry {
    /// Task id and worker role.
    pub label: CorrelationLabel,
    /// What the worker reported.
    pub evidence: EvidenceEntry,
    /// The task's artifacts.
    pub artifacts: Vec<ArtifactRef>,
}

/// An indented line for each artifact.
pub open spec fn inventory_lines(artifacts: Seq<ArtifactRef>) -> Seq<char>
    decreases artifacts.len(),
{
    if artifacts.len() == 0 {
        Seq::empty()
    } else {
        let last = artifacts.last();
        inventory_lines(artifacts.drop_last()) + "\n    "@ + inventory_text(last.file(), last.size())
    }
}

/// An indented line for a footer, where there is one.
pub open spec fn footer_line(footer: Option<Seq<char>>) -> Seq<char> {
    match footer {
        Some(text) => "\n    "@ + text,
        None => Seq::empty(),
    }
}

/// How every entry begins: the task and the suffix of its label.
pub open spec fn entry_head(label: CorrelationLabel, confidence: Option<Confidence>) -> Seq<char> {
    "- Task "@ + numeral(label.task@ as nat) + label_suffix_text(
        role_text(label.worker),
        confidence,
    )
}

fn render_head(label: &CorrelationLabel, confidence: Option<Confidence>) -> (r: String)
    ensures
        r@ == entry_head(*label, confidence),
{
    let mut s = "- Task ".to_owned();
    s.append(label.task.to_string().as_str());
    s.append(label_suffix(&label.worker, confidence).as_str());
    s
}

/// The confidence of an optional claim.
pub open spec fn claim_confidence(claim: Option<WorkerClaim>) -> Option<Confidence> {
    match claim {
        Some(c) => Some(c.stated_confidence()),
        None => None,
    }
}

impl CompletedEntry {
    /// The text of the entry.
    pub open spec fn text(self) -> Seq<char> {
        entry_head(self.label, claim_confidence(self.evidence.carried_claim())) + "\n"@ + indented(
            self.evidence.body_text(),
        ) + footer_line(self.evidence.spill_footer()) + inventory_lines(self.artifacts@)
    }

    /// Render the entry: the label line, the indented evidence, the footer of
    /// a spilled result, and the artifact inventory.
    pub fn render(&self) -> (r: RenderedContext)
        ensures
            r@ == self.text(),
    {
        let confidence = match self.evidence.claim() {
            Some(claim) => Some(claim.confidence()),
            None => None,
        };
        let mut text = render_head(&self.label, confidence);
        let (body, footer) = self.evidence.body_parts();
        text.append("\n");
        text.append(indent(body.as_str()).as_str());
        let ghost bare = text@;
        match footer {
            Some(footer) => {
                text.append("\n    ");
                text.append(footer.as_str());
            },
            None => {},
        }
        let ghost base = text@;
        assert(base =~= bare + footer_line(self.evidence.spill_footer()));
        let mut i: usize = 0;
        assert(base + inventory_lines(self.artifacts@.take(0)) =~= base);
        while i < self.artifacts.len()
            invariant
                i <= self.artifacts.len(),
                text@ == base + inventory_lines(self.artifacts@.take(i as int)),
            decreases self.artifacts.len() - i,
        {
            text.append("\n    ");
            text.append(self.artifacts[i].to_string().as_str());
            proof {
                let taken = self.artifacts@.take(i + 1);
                assert(taken.drop_last() =~= self.artifacts@.take(i as int));
                assert(taken.last() == self.artifacts@[i as int]);
                assert(text@ =~= base + inventory_lines(taken));
            }
            i = i + 1;
        }
        assert(self.artifacts@.take(i as int) =~= self.artifacts@);
        RenderedContext::new(text)
    }
}

/// Why a failed task failed.
#[derive(Debug, PartialEq, Eq)]
pub enum FailureReport {
    /// A failure with a category and a bounded error.
    Hard { category: FailureCategory, error: ErrorPreview },
    /// The worker submitted a result and reported that it could not produce
    /// one.
    Soft { claim: WorkerClaim, artifact: Option<SpilledArtifact> },
}

/// A failed task's entry.
#[derive(Debug, PartialEq, Eq)]
pub struct FailedEntry {
    /// Task id and worker role.
    pub label: CorrelationLabel,
    /// Why the task failed.
    pub report: FailureReport,
}

/// The footer of an optional artifact.
pub open spec fn artifact_footer(artifact: Option<SpilledArtifact>) -> Option<Seq<char>> {
    match artifact {
        Some(a) => Some(footer_text(a.file(), a.chars())),
        None => None,
    }
}

impl FailedEntry {
    /// The text of the entry.
    pub open spec fn text(self) -> Seq<char> {
        let head = entry_head(self.label, None);
        match self.report {
            FailureReport::Hard { category, error } => head + " -> failed ["@ + category.name()
                + "]: "@ + error.shown(),
            FailureReport::Soft { claim, artifact } => head + " -> soft_failure ("@
                + claim.stated_confidence().name() + " confidence)\n"@ + indented(
                claim.summary_text(),
            ) + footer_line(artifact_footer(artifact)),
        }
    }

    /// Render the entry.
    pub fn render(&self) -> (r: RenderedContext)
        ensures
            r@ == self.text(),
    {
        let mut text = render_head(&self.label, None);
        match &self.report {
            FailureReport::Hard { category, error } => {
                text.append(" -> failed [");
                text.append(category.as_str());
                text.append("]: ");
                text.append(error.to_string().as_str());
            },
            FailureReport::Soft { claim, artifact } => {
                text.append(" -> soft_failure (");
                text.append(claim.confidence().as_str());
                text.append(" confidence)\n");
                text.append(indent(claim.summary()).as_str());
                let ghost bare = text@;
                match artifact {
                    Some(artifact) => {
                        text.append("\n    ");
                        text.append(artifact.to_string().as_str());
                    },
                    None => {},
                }
                assert(text@ =~= bare + footer_line(artifact_footer(*artifact)));
            },
        }
        RenderedContext::new(text)
    }
}

/// A blocked task's entry: a dependency failed, so the task never ran and has
/// no evidence.
#[derive(Debug, PartialEq, Eq)]
pub struct BlockedEntry {
    /// Task id and worker role.
    pub label: CorrelationLabel,
}

impl BlockedEntry {
    /// The text of the entry.
    pub open spec fn text(self) -> Seq<char> {
        entry_head(self.label, None) + " -> blocked (dependency failed)"@
    }

    /// Render the entry.
    pub fn render(&self) -> (r: RenderedContext)
        ensures
            r@ == self.text(),
    {
        let mut text = render_head(&self.label, None);
        text.append(" -> blocked (dependency failed)");
        RenderedContext::new(text)
    }
}

// ---------------------------------------------------------------------------
// Laws
// ---------------------------------------------------------------------------

/// What the characters of a footer's fixed parts are like.
proof fn lemma_footer_parts()
    ensures
        FOOTER_PREFIX@.len() == 14,
        FOOTER_PREFIX@[0] == '[',
        forall|i: int| 1 <= i < 14 ==> FOOTER_PREFIX@[i] != '[',
        forall|i: int| 0 <= i < 14 ==> FOOTER_PREFIX@[i] != ']',
        FOOTER_INFIX@.len() == 27,
        FOOTER_INFIX@[0] == ' ',
        forall|i: int| 0 <= i < 27 ==> FOOTER_INFIX@[i] != '[',
        "]"@ == seq![']'],
{
    reveal_strlit("[Full result (");
    reveal_strlit(" chars) saved to artifact: ");
    reveal_strlit("]");
    assert("]"@ =~= seq![']']);
}

/// A footer is the last one that begins, where none begins after it.
proof fn lemma_footer_begins_last(
    body: Seq<char>,
    filename: Seq<char>,
    full_chars: usize,
    tail: Seq<char>,
)
    requires
        !contains_text(filename, FOOTER_PREFIX@),
        !contains_text(tail, FOOTER_PREFIX@),
    ensures
        last_of(body + footer_text(filename, full_chars) + tail, FOOTER_PREFIX@) == Some(
            body.len() as int,
        ),
{
    let p = FOOTER_PREFIX@;
    let q = FOOTER_INFIX@;
    let num = numeral(full_chars as nat);
    let mid = num + q;
    let text = body + footer_text(filename, full_chars) + tail;
    let start = body.len() as int;
    lemma_footer_parts();
    lemma_numeral_digits(full_chars as nat);
    assert(text =~= body + p + mid + filename + "]"@ + tail);
    assert(text.subrange(start, start + 14) =~= p);
    assert forall|j: int| start < j implies !#[trigger] occurs_at(text, p, j) by {
        if occurs_at(text, p, j) {
            let sub = text.subrange(j, j + 14);
            assert(sub == p);
            assert(sub[0] == text[j]);
            let k = j - start - 14;
            let i = k - mid.len();
            let off = filename.len() - i;
            if k < 0 {
                assert(text[j] == p[k + 14]);
            } else if k < mid.len() {
                assert(text[j] == mid[k]);
                if k < num.len() {
                    assert(digit_value(num[k]) is Some);
                } else {
                    assert(mid[k] == q[k - num.len()]);
                }
            } else if off >= 14 {
                assert(filename.subrange(i, i + 14) =~= sub);
                assert(occurs_at(filename, p, i));
            } else if off >= 0 {
                assert(sub[off] == text[j + off]);
                assert(text[j + off] == ']');
            } else {
                let m = -off - 1;
                assert(tail.subrange(m, m + 14) =~= sub);
                assert(occurs_at(tail, p, m));
            }
        }
    }
    lemma_last_of_is(text, p, start);
}

/// What stands after a footer's length and infix, however the footer goes on.
proof fn lemma_footer_parses(
    body: Seq<char>,
    filename: Seq<char>,
    full_chars: usize,
    tail: Seq<char>,
)
    requires
        !contains_text(filename, FOOTER_PREFIX@),
        !contains_text(tail, FOOTER_PREFIX@),
    ensures
        ({
            let rest = trimmed_end(filename + "]"@ + tail);
            trailing_footer(body + footer_text(filename, full_chars) + tail) == if rest.len() > 0
                && rest.last() == ']' && !is_blank(rest.drop_last()) {
                Some(
                    FooterModel {
                        start: body.len() as int,
                        filename: rest.drop_last(),
                        full_chars,
                    },
                )
            } else {
                None
            }
        }),
{
    let q = FOOTER_INFIX@;
    let num = numeral(full_chars as nat);
    let n = num.len() as int;
    let text = body + footer_text(filename, full_chars) + tail;
    lemma_footer_parts();
    lemma_footer_begins_last(body, filename, full_chars, tail);
    lemma_numeral_digits(full_chars as nat);
    law_numeral_round_trip(full_chars);
    let after = text.skip(body.len() as int + 14);
    assert(after =~= num + q + filename + "]"@ + tail);
    assert(after.subrange(n, n + 27) =~= q);
    assert forall|j: int| 0 <= j < n implies !#[trigger] occurs_at(after, q, j) by {
        if occurs_at(after, q, j) {
            assert(after.subrange(j, j + 27)[0] == after[j]);
            assert(digit_value(num[j]) is Some);
        }
    }
    lemma_first_of_is(after, q, n);
    assert(after.take(n) =~= num);
    assert(after.skip(n + 27) =~= filename + "]"@ + tail);
}

/// A footer reads back as what it was written from, whatever text stands
/// before it and whatever white space after it: where the footer starts, the
/// file name and the length. The file name is not blank and does not hold how
/// a footer begins.
pub proof fn law_footer_round_trip(
    body: Seq<char>,
    filename: Seq<char>,
    full_chars: usize,
    space: Seq<char>,
)
    requires
        !is_blank(filename),
        !contains_text(filename, FOOTER_PREFIX@),
        is_blank(space),
    ensures
        trailing_footer(body + footer_text(filename, full_chars) + space) == Some(
            FooterModel { start: body.len() as int, filename, full_chars },
        ),
{
    lemma_footer_parts();
    assert(!contains_text(space, FOOTER_PREFIX@)) by {
        if contains_text(space, FOOTER_PREFIX@) {
            let i = choose|i: int| occurs_at(space, FOOTER_PREFIX@, i);
            assert(space.subrange(i, i + 14)[0] == space[i]);
            assert(is_white_space(space[i]));
        }
    }
    lemma_footer_parses(body, filename, full_chars, space);
    lemma_trimmed_end_concat(filename + "]"@, space);
    let rest = filename + "]"@;
    assert(rest.last() == ']');
    assert(trimmed_end(rest) == rest);
    assert(rest.drop_last() =~= filename);
}

/// A text with a footer ends in a closing bracket, apart from white space.
proof fn lemma_footer_ends_the_text(text: Seq<char>)
    requires
        trailing_footer(text) is Some,
    ensures
        trimmed_end(text).len() > 0,
        trimmed_end(text).last() == ']',
{
    lemma_rfind_from(text, FOOTER_PREFIX@, text.len() - FOOTER_PREFIX@.len());
    let start = last_of(text, FOOTER_PREFIX@)->0 + FOOTER_PREFIX@.len();
    let after_prefix = text.skip(start);
    lemma_find_from(after_prefix, FOOTER_INFIX@, 0);
    let end = first_of(after_prefix, FOOTER_INFIX@)->0 + FOOTER_INFIX@.len();
    let suffix = after_prefix.skip(end);
    lemma_trimmed_end(suffix);
    assert(text =~= text.take(start + end) + suffix);
    lemma_trimmed_end_concat(text.take(start + end), suffix);
}

/// A footer with other text after it is none, unless that text ends in a
/// closing bracket itself.
pub proof fn law_text_after_a_footer_hides_it(
    body: Seq<char>,
    filename: Seq<char>,
    full_chars: usize,
    tail: Seq<char>,
)
    requires
        !is_blank(tail),
        trimmed_end(tail).last() != ']',
    ensures
        trailing_footer(body + footer_text(filename, full_chars) + tail) is None,
{
    let text = body + footer_text(filename, full_chars) + tail;
    lemma_trimmed_end_concat(body + footer_text(filename, full_chars), tail);
    lemma_trimmed_end(tail);
    assert(trimmed_end(text).last() == trimmed_end(tail).last());
    if trailing_footer(text) is Some {
        lemma_footer_ends_the_text(text);
    }
}

/// No text is both inline evidence and a spilled result: what
/// [`EvidenceText::new`] accepts has no footer to read, and a text with a
/// footer is never blank.
pub proof fn law_classification_is_exclusive(text: Seq<char>)
    requires
        trailing_footer(text) is Some,
    ensures
        !is_blank(text),
{
    reveal_strlit("[Full result (");
    lemma_rfind_from(text, FOOTER_PREFIX@, text.len() - FOOTER_PREFIX@.len());
    let start = last_of(text, FOOTER_PREFIX@)->0;
    assert(text.subrange(start, start + FOOTER_PREFIX@.len())[0] == '[');
    assert(!is_white_space(text[start]));
}

/// A preview is never longer than its bound, and the marker is shown exactly
/// where something was cut.
pub proof fn law_error_preview_is_bounded(raw: Seq<char>, preview: ErrorPreview)
    requires
        preview.bounded_text() == char_prefix(raw, ERROR_PREVIEW_CHARS as nat),
        preview.is_cut() == (raw.len() > ERROR_PREVIEW_CHARS),
    ensures
        preview.bounded_text().len() <= ERROR_PREVIEW_CHARS,
        preview.bounded_text().is_prefix_of(raw),
        raw.len() <= ERROR_PREVIEW_CHARS ==> preview.shown() == raw,
        raw.len() > ERROR_PREVIEW_CHARS ==> preview.shown() == raw.take(
            ERROR_PREVIEW_CHARS as int,
        ) + ERROR_TRUNCATION_MARKER@,
{
}

} // verus!
