//! What the text of a tool's result holds.
use super::response::{items_shown, CallToolResult, ToolContent, TOOL_ERROR_PREFIX};
use crate::text::byte_len;
use crate::text::numerals::numeral;
use crate::text::parts::{law_joined_holds_each_part, lemma_holds, lemma_holds_what_a_part_holds};
use crate::text::search::contains_text;
use crate::text::trim::joined;
use vstd::prelude::*;

verus! {

/// The text of a result without a document holds every item: a text as it is,
/// an image by its type and size, a resource by where it is; what is not
/// supported is named as such.
pub proof fn law_every_item_is_shown(result: CallToolResult, i: int)
    requires
        0 <= i < result.content@.len(),
    ensures
        contains_text(
            result.shown(None),
            match result.content@[i] {
                ToolContent::Text(text) => text@,
                ToolContent::Image { mime_type, data } => mime_type@ + " ("@ + numeral(
                    byte_len(data@),
                ) + ")"@,
                ToolContent::Resource { uri } => uri@,
                ToolContent::Unsupported => "[Unsupported content type]"@,
            },
        ),
{
    let texts = items_shown(result.content@);
    let body = joined(texts, "\n"@);
    law_joined_holds_each_part(texts, "\n"@, i);
    let item = result.content@[i];
    assert(texts[i] == item.shown());
    let text = result.shown(None);
    lemma_body_is_shown(result, None, body);
    lemma_holds_what_a_part_holds(text, body, item.shown());
    match item {
        ToolContent::Image { mime_type, data } => {
            let told = mime_type@ + " ("@ + numeral(byte_len(data@)) + ")"@;
            reveal_strlit(")]");
            reveal_strlit(")");
            reveal_strlit("]");
            assert(")]"@ =~= ")"@ + "]"@);
            assert(item.shown() =~= "[Image: "@ + told + "]"@);
            lemma_holds("[Image: "@, told, "]"@);
            lemma_holds_what_a_part_holds(text, item.shown(), told);
        },
        ToolContent::Resource { uri } => {
            lemma_holds("[Resource: "@, uri@, "]"@);
            lemma_holds_what_a_part_holds(text, item.shown(), uri@);
        },
        _ => {},
    }
}

proof fn lemma_body_is_shown(result: CallToolResult, document: Option<Seq<char>>, body: Seq<char>)
    requires
        body == match document {
            Some(text) => text,
            None => joined(items_shown(result.content@), "\n"@),
        },
    ensures
        contains_text(result.shown(document), body),
{
    let text = result.shown(document);
    if result.is_error == Some(true) {
        assert(text =~= TOOL_ERROR_PREFIX@ + body + Seq::empty());
        lemma_holds(TOOL_ERROR_PREFIX@, body, Seq::empty());
    } else {
        assert(text =~= Seq::empty() + body + Seq::empty());
        lemma_holds(Seq::empty(), body, Seq::empty());
    }
}

/// A document is shown whole; exactly a result that says it failed is marked
/// as an error.
pub proof fn law_document_is_shown(result: CallToolResult, document: Seq<char>)
    ensures
        result.is_error == Some(true) ==> result.shown(Some(document))
            == "Tool returned an error: "@ + document,
        result.is_error != Some(true) ==> result.shown(Some(document)) == document,
{
}

/// A result of one text that did not fail is that text.
pub proof fn law_one_text_stands_alone(result: CallToolResult, text: String)
    requires
        result.content@ == seq![ToolContent::Text(text)],
        result.is_error != Some(true),
    ensures
        result.shown(None) == text@,
{
    let texts = items_shown(result.content@);
    law_joined_holds_each_part(texts, "\n"@, 0);
    assert(texts[0] == text@);
    assert(Seq::<char>::empty() + text@ + Seq::<char>::empty() =~= text@);
}

} // verus!
