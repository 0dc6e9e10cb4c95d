//! What a tool call came back with.
use crate::json::{pretty_json, pretty_print, Json};
use crate::text::numerals::{
    lemma_numeral_digits, lemma_numeral_len_machine, numeral, usize_text,
};
use crate::text::trim::{join, joined, views};
use crate::text::{
    byte_count, byte_len, byte_prefix, lemma_byte_len_ascii, lemma_byte_len_concat,
    lemma_chars_within_greatest, safe_truncate,
};
use vstd::prelude::*;

verus! {

/// What a tool call came back with.
#[derive(Debug, PartialEq, Eq)]
#[allow(inconsistent_fields)]
pub enum CallOutcome {
    /// The tool succeeded.
    Success(String),
    /// The tool failed; trying again may help.
    GeneralToolError { content: String, code: Option<i64> },
    /// The call did not fit the tool's schema.
    SchemaError { content: String, code: i64 },
}

// ---------------------------------------------------------------------------
// Results
// ---------------------------------------------------------------------------

/// One item of what a tool returned.
#[derive(Debug, PartialEq, Eq)]
pub enum ToolContent {
    Text(String),
    /// An image by its type and its encoded data.
    Image { mime_type: String, data: String },
    /// A resource, text or binary, by where it is.
    Resource { uri: String },
    /// Anything else.
    Unsupported,
}

impl ToolContent {
    /// The text that stands for the item.
    pub open spec fn shown(self) -> Seq<char> {
        match self {
            ToolContent::Text(text) => text@,
            ToolContent::Image { mime_type, data } => "[Image: "@ + mime_type@ + " ("@ + numeral(
                byte_len(data@),
            ) + ")]"@,
            ToolContent::Resource { uri } => "[Resource: "@ + uri@ + "]"@,
            ToolContent::Unsupported => "[Unsupported content type]"@,
        }
    }

    /// The text that stands for the item.
    pub fn show(&self) -> (r: String)
        ensures
            r@ == self.shown(),
    {
        match self {
            ToolContent::Text(text) => text.clone(),
            ToolContent::Image { mime_type, data } => {
                let mut r = "[Image: ".to_owned();
                r.append(mime_type);
                r.append(" (");
                r.append(&usize_text(byte_count(data)));
                r.append(")]");
                r
            },
            ToolContent::Resource { uri } => {
                let mut r = "[Resource: ".to_owned();
                r.append(uri);
                r.append("]");
                r
            },
            ToolContent::Unsupported => "[Unsupported content type]".to_owned(),
        }
    }
}

/// What a tool returned.
#[derive(Debug, PartialEq, Eq)]
pub struct CallToolResult {
    pub content: Vec<ToolContent>,
    /// A JSON document; it takes precedence over the content.
    pub structured_content: Option<Json>,
    pub is_error: Option<bool>,
}

/// What stands before the text of a result that is an error.
pub const TOOL_ERROR_PREFIX: &'static str = "Tool returned an error: ";

/// The texts of the items.
pub open spec fn items_shown(items: Seq<ToolContent>) -> Seq<Seq<char>> {
    Seq::new(items.len(), |i: int| items[i].shown())
}

impl CallToolResult {
    /// Whether the tool says that it failed.
    pub open spec fn failed(self) -> bool {
        self.is_error == Some(true)
    }

    /// The text of the result: the document, where there is one, else the
    /// items, one per line; marked where the tool says that it failed.
    pub open spec fn shown(self, document: Option<Seq<char>>) -> Seq<char> {
        let body = match document {
            Some(text) => text,
            None => joined(items_shown(self.content@), "\n"@),
        };
        if self.failed() {
            TOOL_ERROR_PREFIX@ + body
        } else {
            body
        }
    }
}

/// The texts of the items, in order.
fn show_all(items: &Vec<ToolContent>) -> (r: Vec<String>)
    ensures
        views(r@) == items_shown(items@),
{
    let mut r: Vec<String> = Vec::new();
    for i in 0..items.len()
        invariant
            r.len() == i,
            forall|j: int| 0 <= j < i ==> (#[trigger] r@[j])@ == items@[j].shown(),
    {
        r.push(items[i].show());
    }
    r
}

/// The text of a result, given its document in the form in which it is shown.
pub fn tool_result_text(result: CallToolResult, document: Option<String>) -> (r: String)
    ensures
        r@ == result.shown(
            match document {
                Some(text) => Some(text@),
                None => None,
            },
        ),
{
    let failed = match result.is_error {
        Some(is_error) => is_error,
        None => false,
    };
    let body = match document {
        Some(text) => text,
        None => {
            let texts = show_all(&result.content);
            join(&texts, "\n")
        },
    };
    if failed {
        let mut r = TOOL_ERROR_PREFIX.to_owned();
        r.append(&body);
        r
    } else {
        body
    }
}

/// The text of a result, as the caller of the tool gets it.
pub fn extract_tool_result(result: CallToolResult) -> (r: String)
    ensures
        r@ == result.shown(
            match result.structured_content {
                Some(document) => Some(pretty_json(document@)),
                None => None,
            },
        ),
{
    let CallToolResult { content, structured_content, is_error } = result;
    let document = match structured_content {
        Some(document) => Some(pretty_print(&document)),
        None => None,
    };
    tool_result_text(CallToolResult { content, structured_content: None, is_error }, document)
}

/// A result that carries a document shows nothing of its items.
pub proof fn law_document_takes_precedence(
    result: CallToolResult,
    other: CallToolResult,
    document: Seq<char>,
)
    requires
        result.is_error == other.is_error,
    ensures
        result.shown(Some(document)) == other.shown(Some(document)),
{
}

/// A failed result shows what the same result shows where it succeeded, with
/// the mark before it; it is the only difference that the failure makes.
pub proof fn law_failure_is_marked(
    failed: CallToolResult,
    succeeded: CallToolResult,
    document: Option<Seq<char>>,
)
    requires
        failed.is_error == Some(true),
        succeeded.is_error == Some(false) || succeeded.is_error is None,
        failed.content@ == succeeded.content@,
    ensures
        failed.shown(document) == TOOL_ERROR_PREFIX@ + succeeded.shown(document),
{
}

// ---------------------------------------------------------------------------
// Errors
// ---------------------------------------------------------------------------

/// The most bytes of an error's own text that a caller is shown.
pub const MAX_TOOL_ERROR_BYTES: usize = 4096;

/// The note behind an error of `total` bytes of which `max` are kept.
pub open spec fn truncation_note(max: nat, total: nat) -> Seq<char> {
    "\n[tool error truncated: "@ + numeral(max) + " of "@ + numeral(total) + " bytes kept]"@
}

/// An error's text held to `max` bytes, cut at a character and noted where
/// anything was cut.
pub open spec fn bounded_error(content: Seq<char>, max: nat) -> Seq<char> {
    if byte_len(content) <= max {
        content
    } else {
        byte_prefix(content, max) + truncation_note(
            byte_len(byte_prefix(content, max)),
            byte_len(content),
        )
    }
}

/// Holds an error's text to `max` bytes.
pub fn bound_error_content(content: String, max: usize) -> (r: String)
    ensures
        r@ == bounded_error(content@, max as nat),
{
    let total = byte_count(&content);
    if total <= max {
        content
    } else {
        let (kept, _) = safe_truncate(&content, max);
        let mut r = kept.to_owned();
        r.append("\n[tool error truncated: ");
        r.append(&usize_text(byte_count(kept)));
        r.append(" of ");
        r.append(&usize_text(total));
        r.append(" bytes kept]");
        assert(r@ == bounded_error(content@, max as nat));
        r
    }
}

/// The note takes at most eighty bytes.
proof fn lemma_note_is_short(max: nat, total: nat)
    requires
        max <= u64::MAX,
        total <= u64::MAX,
    ensures
        byte_len(truncation_note(max, total)) <= 80,
{
    reveal_strlit("\n[tool error truncated: ");
    reveal_strlit(" of ");
    reveal_strlit(" bytes kept]");
    lemma_numeral_digits(max);
    lemma_numeral_digits(total);
    lemma_numeral_len_machine(max);
    lemma_numeral_len_machine(total);
    lemma_byte_len_ascii(truncation_note(max, total));
}

/// However long an error is, what is shown of it is at most eighty bytes
/// longer than the bound; it begins as the error does; and an error within
/// the bound is shown as it is.
pub proof fn law_error_is_bounded(content: Seq<char>, max: nat)
    requires
        max <= u64::MAX,
        byte_len(content) <= u64::MAX,
    ensures
        byte_len(bounded_error(content, max)) <= max + 80,
        byte_prefix(content, max).is_prefix_of(bounded_error(content, max)),
        byte_len(content) <= max ==> bounded_error(content, max) == content,
{
    lemma_chars_within_greatest(content, max);
    if byte_len(content) > max {
        let kept = byte_prefix(content, max);
        lemma_note_is_short(byte_len(kept), byte_len(content));
        lemma_byte_len_concat(kept, truncation_note(byte_len(kept), byte_len(content)));
    }
}

} // verus!
