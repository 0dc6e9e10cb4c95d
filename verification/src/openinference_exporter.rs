//! Span attributes under their OpenInference names.
//!
//! Spans arrive with `gen_ai.*` attributes. Those with an OpenInference
//! counterpart are translated, messages are flattened, and then every
//! `gen_ai.*` attribute is dropped.
use crate::json::{json_read, lemma_docs, lemma_member_docs, read_json, Doc, Json, Member};
use crate::logging::{
    ATTR_INPUT_VALUE, ATTR_LLM_MODEL_NAME, ATTR_LLM_SYSTEM, ATTR_LLM_TOKEN_COMPLETION,
    ATTR_LLM_TOKEN_PROMPT, ATTR_OUTPUT_VALUE, ATTR_TOOL_NAME, ATTR_TOOL_PARAMETERS,
};
use crate::text::numerals::{i64_text, numeral, signed_numeral, usize_text};
use crate::text::search::starts_with;
use crate::text::{same, to_chars};
use vstd::prelude::*;

verus! {

// ---------------------------------------------------------------------------
// Spans
// ---------------------------------------------------------------------------

/// The value of an attribute. A value of any other type is carried through by
/// its place in the caller's table, with the text it displays as.
#[derive(Debug, PartialEq, Eq)]
#[allow(inconsistent_fields)]
pub enum AttributeValue {
    Bool(bool),
    I64(i64),
    Text(String),
    Other { index: usize, text: String },
}

/// What an attribute's value is.
pub enum ValueModel {
    Bool(bool),
    I64(i64),
    Text(Seq<char>),
    Other { index: usize, text: Seq<char> },
}

impl View for AttributeValue {
    type V = ValueModel;

    open spec fn view(&self) -> ValueModel {
        match *self {
            AttributeValue::Bool(b) => ValueModel::Bool(b),
            AttributeValue::I64(n) => ValueModel::I64(n),
            AttributeValue::Text(s) => ValueModel::Text(s@),
            AttributeValue::Other { index, text } => ValueModel::Other { index, text: text@ },
        }
    }
}

impl ValueModel {
    /// The text that the value displays as.
    pub open spec fn shown(self) -> Seq<char> {
        match self {
            ValueModel::Bool(b) => if b {
                "true"@
            } else {
                "false"@
            },
            ValueModel::I64(n) => signed_numeral(n as int),
            ValueModel::Text(s) => s,
            ValueModel::Other { index, text } => text,
        }
    }
}

impl Clone for AttributeValue {
    fn clone(&self) -> (r: Self)
        ensures
            r == *self,
    {
        match self {
            AttributeValue::Bool(b) => AttributeValue::Bool(*b),
            AttributeValue::I64(n) => AttributeValue::I64(*n),
            AttributeValue::Text(s) => AttributeValue::Text(s.clone()),
            AttributeValue::Other { index, text } => AttributeValue::Other {
                index: *index,
                text: text.clone(),
            },
        }
    }
}

impl AttributeValue {
    /// The text that the value displays as.
    pub fn to_string(&self) -> (r: String)
        ensures
            r@ == self@.shown(),
    {
        match self {
            AttributeValue::Bool(b) => if *b {
                "true".to_owned()
            } else {
                "false".to_owned()
            },
            AttributeValue::I64(n) => i64_text(*n),
            AttributeValue::Text(s) => s.clone(),
            AttributeValue::Other { text, .. } => text.clone(),
        }
    }
}

/// An attribute.
#[derive(Debug, PartialEq, Eq)]
pub struct KeyValue {
    pub key: String,
    pub value: AttributeValue,
}

/// What an attribute is.
pub struct Attribute {
    pub key: Seq<char>,
    pub value: ValueModel,
}

impl View for KeyValue {
    type V = Attribute;

    open spec fn view(&self) -> Attribute {
        Attribute { key: self.key@, value: self.value@ }
    }
}

/// What attributes are.
pub open spec fn attributes_of(list: Seq<KeyValue>) -> Seq<Attribute> {
    Seq::new(list.len(), |i: int| list[i]@)
}

/// A text attribute.
pub open spec fn text_attribute(key: Seq<char>, text: Seq<char>) -> Attribute {
    Attribute { key, value: ValueModel::Text(text) }
}

impl KeyValue {
    /// A text attribute.
    pub fn text(key: &str, text: &str) -> (r: Self)
        ensures
            r@ == text_attribute(key@, text@),
    {
        KeyValue { key: key.to_owned(), value: AttributeValue::Text(text.to_owned()) }
    }

    /// An integer attribute.
    pub fn integer(key: &str, n: i64) -> (r: Self)
        ensures
            r@ == (Attribute { key: key@, value: ValueModel::I64(n) }),
    {
        KeyValue { key: key.to_owned(), value: AttributeValue::I64(n) }
    }
}

/// A span: its name and its attributes.
#[derive(Debug, PartialEq, Eq)]
pub struct SpanData {
    pub name: String,
    pub attributes: Vec<KeyValue>,
}

// ---------------------------------------------------------------------------
// Kinds
// ---------------------------------------------------------------------------

/// The kind of a span.
#[derive(Debug, Clone, Copy, PartialEq, Eq, Structural)]
pub enum Kind {
    Llm,
    Tool,
    Agent,
    Chain,
}

impl Kind {
    /// The name of the kind.
    pub open spec fn name(self) -> Seq<char> {
        match self {
            Kind::Llm => "LLM"@,
            Kind::Tool => "TOOL"@,
            Kind::Agent => "AGENT"@,
            Kind::Chain => "CHAIN"@,
        }
    }

    /// The name of the kind.
    pub fn as_str(&self) -> (r: &'static str)
        ensures
            r@ == self.name(),
    {
        match self {
            Kind::Llm => "LLM",
            Kind::Tool => "TOOL",
            Kind::Agent => "AGENT",
            Kind::Chain => "CHAIN",
        }
    }
}

/// The kind of a span with a given name; a chain, where nothing else is known.
pub open spec fn kind_of(name: Seq<char>) -> Kind {
    if name == "chat"@ || name == "chat_streaming"@ || name == "agent.turn"@ {
        Kind::Llm
    } else if name == "execute_tool"@ || name == "mcp.tool_call"@ {
        Kind::Tool
    } else if name == "agent.stream"@ || name == "agent.prompt"@ || name == "agent.chat"@ {
        Kind::Agent
    } else {
        Kind::Chain
    }
}

fn span_kind(name: &str) -> (r: Kind)
    ensures
        r == kind_of(name@),
{
    if same(name, "chat") || same(name, "chat_streaming") || same(name, "agent.turn") {
        Kind::Llm
    } else if same(name, "execute_tool") || same(name, "mcp.tool_call") {
        Kind::Tool
    } else if same(name, "agent.stream") || same(name, "agent.prompt") || same(name, "agent.chat") {
        Kind::Agent
    } else {
        Kind::Chain
    }
}

/// The name of the kind of a span with a given name.
pub fn infer_span_kind(name: &str) -> (r: &'static str)
    ensures
        r@ == kind_of(name@).name(),
{
    span_kind(name).as_str()
}

// ---------------------------------------------------------------------------
// Messages
// ---------------------------------------------------------------------------

/// A member of a message: its key, and its text where it is a string.
pub type RowMember = (Seq<char>, Option<Seq<char>>);

/// The members of a value; one that is no object has none.
pub open spec fn row_in(v: Doc) -> Seq<RowMember> {
    match v {
        Doc::Object(members) => Seq::new(
            members.len(),
            |i: int|
                (
                    members[i].0,
                    match members[i].1 {
                        Doc::Text(s) => Some(s),
                        _ => None,
                    },
                ),
        ),
        _ => Seq::empty(),
    }
}

/// The elements of an array, each by its members; none where a value is no
/// array, or where no value could be read.
pub open spec fn rows_in(read: Result<Doc, Seq<char>>) -> Option<Seq<Seq<RowMember>>> {
    match read {
        Ok(Doc::Array(items)) => Some(Seq::new(items.len(), |i: int| row_in(items[i]))),
        _ => None,
    }
}

/// The elements of the JSON array that a text spells, each by its members: a
/// member's text is there where its value is a string, and an element that is
/// no object has no members. `None` where the text spells no array.
pub open spec fn json_rows(text: Seq<char>) -> Option<Seq<Seq<RowMember>>> {
    rows_in(json_read(text))
}

/// The members of one element.
pub open spec fn row_of(row: Seq<(String, Option<String>)>) -> Seq<RowMember> {
    Seq::new(
        row.len(),
        |i: int|
            (
                row[i].0@,
                match row[i].1 {
                    Some(s) => Some(s@),
                    None => None,
                },
            ),
    )
}

/// The elements, each by its members.
pub open spec fn rows_of(rows: Seq<Vec<(String, Option<String>)>>) -> Seq<Seq<RowMember>> {
    Seq::new(rows.len(), |i: int| row_of(rows[i]@))
}

fn collect_row(members: &Vec<Member>) -> (r: Vec<(String, Option<String>)>)
    ensures
        row_of(r@) == row_in(Json::Object(*members)@),
{
    proof {
        lemma_member_docs(members@, members@.len() as int);
    }
    let mut r: Vec<(String, Option<String>)> = Vec::new();
    for i in 0..members.len()
        invariant
            r.len() == i,
            forall|j: int|
                0 <= j < i ==> {
                    &&& (#[trigger] r@[j]).0@ == members@[j].key@
                    &&& match r@[j].1 {
                        Some(s) => members@[j].value@ == Doc::Text(s@),
                        None => !(members@[j].value@ is Text),
                    }
                },
    {
        let text = match &members[i].value {
            Json::Text(s) => Some(s.clone()),
            _ => None,
        };
        r.push((members[i].key.clone(), text));
    }
    assert(row_of(r@) =~= row_in(Json::Object(*members)@));
    r
}

/// The elements of an array, each by its members.
fn collect_rows(items: &Vec<Json>) -> (r: Vec<Vec<(String, Option<String>)>>)
    ensures
        rows_in(Ok(Json::Array(*items)@)) == Some(rows_of(r@)),
{
    proof {
        lemma_docs(items@, items@.len() as int);
    }
    let mut r: Vec<Vec<(String, Option<String>)>> = Vec::new();
    for i in 0..items.len()
        invariant
            r.len() == i,
            forall|j: int| 0 <= j < i ==> row_of((#[trigger] r@[j])@) == row_in(items@[j]@),
    {
        let row = match &items[i] {
            Json::Object(members) => collect_row(members),
            _ => Vec::new(),
        };
        assert(row_of(row@) =~= row_in(items@[i as int]@));
        r.push(row);
    }
    assert(rows_in(Ok(Json::Array(*items)@))->0 =~= rows_of(r@));
    r
}

/// The elements of the array that a text spells.
fn parse_rows(text: &str) -> (r: Option<Vec<Vec<(String, Option<String>)>>>)
    ensures
        match r {
            Some(rows) => json_rows(text@) == Some(rows_of(rows@)),
            None => json_rows(text@) is None,
        },
{
    match read_json(text) {
        Ok(Json::Array(items)) => Some(collect_rows(&items)),
        _ => None,
    }
}

/// A text without the double quotes at either end.
pub open spec fn unquoted(s: Seq<char>) -> Seq<char> {
    unquoted_end(unquoted_start(s))
}

/// A text without leading double quotes.
pub open spec fn unquoted_start(s: Seq<char>) -> Seq<char>
    decreases s.len(),
{
    if s.len() > 0 && s[0] == '"' {
        unquoted_start(s.drop_first())
    } else {
        s
    }
}

/// A text without trailing double quotes.
pub open spec fn unquoted_end(s: Seq<char>) -> Seq<char>
    decreases s.len(),
{
    if s.len() > 0 && s.last() == '"' {
        unquoted_end(s.drop_last())
    } else {
        s
    }
}

/// Strip the double quotes at either end.
pub fn unquote<'a>(s: &'a str) -> (r: &'a str)
    ensures
        r@ == unquoted(s@),
{
    let chars = to_chars(s);
    let mut i: usize = 0;
    assert(s@.skip(0) =~= s@);
    while i < chars.len() && chars[i] == '"'
        invariant
            chars@ == s@,
            i <= chars@.len(),
            unquoted_start(s@) == unquoted_start(s@.skip(i as int)),
        decreases chars@.len() - i,
    {
        assert(s@.skip(i as int)[0] == s@[i as int]);
        assert(s@.skip(i as int).drop_first() =~= s@.skip(i + 1));
        i = i + 1;
    }
    let ghost rest = s@.skip(i as int);
    proof {
        if i < chars.len() {
            assert(rest[0] == s@[i as int]);
        }
        assert(unquoted_start(s@) == rest);
    }
    let mut n: usize = chars.len();
    assert(rest.take(n - i) =~= rest);
    while n > i && chars[n - 1] == '"'
        invariant
            chars@ == s@,
            i <= n <= chars@.len(),
            rest == s@.skip(i as int),
            unquoted_end(rest) == unquoted_end(rest.take(n - i)),
        decreases n - i,
    {
        assert(rest.take(n - i).last() == s@[n - 1]);
        assert(rest.take(n - i).drop_last() =~= rest.take(n - i - 1));
        n = n - 1;
    }
    proof {
        if n > i {
            assert(rest.take(n - i).last() == s@[n - 1]);
        }
        assert(s@.subrange(i as int, n as int) =~= rest.take(n - i));
    }
    s.substring_char(i, n)
}

/// The messages that a text spells: as it stands, or else without the double
/// quotes around it.
pub open spec fn messages_of(text: Seq<char>) -> Option<Seq<Seq<RowMember>>> {
    match json_rows(text) {
        Some(rows) => Some(rows),
        None => json_rows(unquoted(text)),
    }
}

/// The text of the first member with a key, at or after place `i`; none where
/// that member is no string.
pub open spec fn member_text(row: Seq<RowMember>, key: Seq<char>, i: int) -> Option<Seq<char>>
    decreases row.len() - i,
{
    if i < 0 || i >= row.len() {
        None
    } else if row[i].0 == key {
        row[i].1
    } else {
        member_text(row, key, i + 1)
    }
}

fn find_text(row: &Vec<(String, Option<String>)>, key: &str) -> (r: Option<String>)
    ensures
        match r {
            Some(s) => member_text(row_of(row@), key@, 0) == Some(s@),
            None => member_text(row_of(row@), key@, 0) is None,
        },
{
    let ghost model = row_of(row@);
    let mut i: usize = 0;
    while i < row.len()
        invariant
            i <= row@.len(),
            model == row_of(row@),
            member_text(model, key@, 0) == member_text(model, key@, i as int),
        decreases row@.len() - i,
    {
        assert(model[i as int].0 == row@[i as int].0@);
        if same(row[i].0.as_str(), key) {
            return match &row[i].1 {
                Some(s) => Some(s.clone()),
                None => None,
            };
        }
        i = i + 1;
    }
    None
}

/// The key of one part of the message at place `i`.
pub open spec fn message_key(prefix: Seq<char>, i: nat, part: Seq<char>) -> Seq<char> {
    prefix + "."@ + numeral(i) + ".message."@ + part
}

fn make_message_key(prefix: &str, i: usize, part: &str) -> (r: String)
    ensures
        r@ == message_key(prefix@, i as nat, part@),
{
    let mut key = prefix.to_owned();
    key.append(".");
    key.append(usize_text(i).as_str());
    key.append(".message.");
    key.append(part);
    key
}

/// The attribute of one part of a message, where the message has that part as
/// a string.
pub open spec fn message_part(
    row: Seq<RowMember>,
    prefix: Seq<char>,
    i: nat,
    part: Seq<char>,
) -> Seq<Attribute> {
    match member_text(row, part, 0) {
        Some(text) => seq![text_attribute(message_key(prefix, i, part), text)],
        None => Seq::empty(),
    }
}

/// The attributes of the first `n` messages: role, then content.
pub open spec fn message_attributes(
    rows: Seq<Seq<RowMember>>,
    prefix: Seq<char>,
    n: int,
) -> Seq<Attribute>
    decreases n,
{
    if n <= 0 || n > rows.len() {
        Seq::empty()
    } else {
        message_attributes(rows, prefix, n - 1) + message_part(
            rows[n - 1],
            prefix,
            (n - 1) as nat,
            "role"@,
        ) + message_part(rows[n - 1], prefix, (n - 1) as nat, "content"@)
    }
}

/// The attributes of all messages; none where there are no messages.
pub open spec fn flattened(messages: Option<Seq<Seq<RowMember>>>, prefix: Seq<char>) -> Seq<
    Attribute,
> {
    match messages {
        Some(rows) => message_attributes(rows, prefix, rows.len() as int),
        None => Seq::empty(),
    }
}

fn push_part(
    row: &Vec<(String, Option<String>)>,
    prefix: &str,
    i: usize,
    part: &str,
    out: &mut Vec<KeyValue>,
)
    ensures
        attributes_of(final(out)@) == attributes_of(old(out)@) + message_part(
            row_of(row@),
            prefix@,
            i as nat,
            part@,
        ),
{
    match find_text(row, part) {
        Some(text) => {
            let key = make_message_key(prefix, i, part);
            out.push(KeyValue::text(key.as_str(), text.as_str()));
            assert(attributes_of(out@) =~= attributes_of(old(out)@) + message_part(
                row_of(row@),
                prefix@,
                i as nat,
                part@,
            ));
        },
        None => {
            assert(attributes_of(out@) =~= attributes_of(out@) + Seq::<Attribute>::empty());
        },
    }
}

/// Append the attributes of messages.
pub fn push_messages(
    rows: &Vec<Vec<(String, Option<String>)>>,
    prefix: &str,
    out: &mut Vec<KeyValue>,
)
    ensures
        attributes_of(final(out)@) == attributes_of(old(out)@) + flattened(
            Some(rows_of(rows@)),
            prefix@,
        ),
{
    let ghost model = rows_of(rows@);
    let ghost before = attributes_of(out@);
    let mut i: usize = 0;
    assert(before + message_attributes(model, prefix@, 0) =~= before);
    while i < rows.len()
        invariant
            i <= rows@.len(),
            model == rows_of(rows@),
            attributes_of(out@) == before + message_attributes(model, prefix@, i as int),
        decreases rows@.len() - i,
    {
        push_part(&rows[i], prefix, i, "role", out);
        push_part(&rows[i], prefix, i, "content", out);
        assert(model[i as int] == row_of(rows@[i as int]@));
        assert(attributes_of(out@) =~= before + message_attributes(model, prefix@, i + 1));
        i = i + 1;
    }
}

/// Append the attributes of the messages that a text spells.
pub fn expand_messages(json_str: &str, prefix: &str, out: &mut Vec<KeyValue>)
    ensures
        attributes_of(final(out)@) == attributes_of(old(out)@) + flattened(
            messages_of(json_str@),
            prefix@,
        ),
{
    match parse_rows(json_str) {
        Some(rows) => {
            push_messages(&rows, prefix, out);
        },
        None => match parse_rows(unquote(json_str)) {
            Some(rows) => {
                push_messages(&rows, prefix, out);
            },
            None => {
                assert(attributes_of(out@) =~= attributes_of(out@) + Seq::<Attribute>::empty());
            },
        },
    }
}

// ---------------------------------------------------------------------------
// Translation
// ---------------------------------------------------------------------------

/// The name that an attribute has in every kind of span.
pub open spec fn renamed(key: Seq<char>) -> Option<Seq<char>> {
    if key == "gen_ai.system"@ {
        Some(ATTR_LLM_SYSTEM@)
    } else if key == "gen_ai.provider.name"@ {
        Some(ATTR_LLM_SYSTEM@)
    } else if key == "gen_ai.request.model"@ {
        Some(ATTR_LLM_MODEL_NAME@)
    } else if key == "gen_ai.usage.input_tokens"@ {
        Some(ATTR_LLM_TOKEN_PROMPT@)
    } else if key == "gen_ai.usage.output_tokens"@ {
        Some(ATTR_LLM_TOKEN_COMPLETION@)
    } else if key == "gen_ai.tool.name"@ {
        Some(ATTR_TOOL_NAME@)
    } else if key == "gen_ai.tool.call.arguments"@ {
        Some(ATTR_TOOL_PARAMETERS@)
    } else if key == "gen_ai.agent.name"@ {
        Some("agent.name"@)
    } else if key == "gen_ai.agent.turn"@ {
        Some("agent.turn"@)
    } else if key == "gen_ai.agent.max_turns"@ {
        Some("agent.max_turns"@)
    } else if key == "gen_ai.turn.history_len"@ {
        Some("turn.history_len"@)
    } else if key == "gen_ai.turn.tool_count"@ {
        Some("turn.tool_count"@)
    } else if key == "gen_ai.turn.has_tool_calls"@ {
        Some("turn.has_tool_calls"@)
    } else {
        None
    }
}

fn renamed_key(key: &str) -> (r: Option<&'static str>)
    ensures
        match r {
            Some(to) => renamed(key@) == Some(to@),
            None => renamed(key@) is None,
        },
{
    if same(key, "gen_ai.system") {
        Some(ATTR_LLM_SYSTEM)
    } else if same(key, "gen_ai.provider.name") {
        Some(ATTR_LLM_SYSTEM)
    } else if same(key, "gen_ai.request.model") {
        Some(ATTR_LLM_MODEL_NAME)
    } else if same(key, "gen_ai.usage.input_tokens") {
        Some(ATTR_LLM_TOKEN_PROMPT)
    } else if same(key, "gen_ai.usage.output_tokens") {
        Some(ATTR_LLM_TOKEN_COMPLETION)
    } else if same(key, "gen_ai.tool.name") {
        Some(ATTR_TOOL_NAME)
    } else if same(key, "gen_ai.tool.call.arguments") {
        Some(ATTR_TOOL_PARAMETERS)
    } else if same(key, "gen_ai.agent.name") {
        Some("agent.name")
    } else if same(key, "gen_ai.agent.turn") {
        Some("agent.turn")
    } else if same(key, "gen_ai.agent.max_turns") {
        Some("agent.max_turns")
    } else if same(key, "gen_ai.turn.history_len") {
        Some("turn.history_len")
    } else if same(key, "gen_ai.turn.tool_count") {
        Some("turn.tool_count")
    } else if same(key, "gen_ai.turn.has_tool_calls") {
        Some("turn.has_tool_calls")
    } else {
        None
    }
}

/// Whether a kind shows turns: chains and model calls do.
pub open spec fn shows_turns(kind: Kind) -> bool {
    kind == Kind::Chain || kind == Kind::Llm
}

/// The attributes that one attribute of a span becomes.
pub open spec fn translated(kind: Kind, a: Attribute) -> Seq<Attribute> {
    match renamed(a.key) {
        Some(to) => seq![Attribute { key: to, value: a.value }],
        None => if a.key == "gen_ai.tool.call.result"@ && kind == Kind::Tool {
            seq![Attribute { key: ATTR_OUTPUT_VALUE@, value: a.value }]
        } else if a.key == "gen_ai.turn.prompt"@ && shows_turns(kind) {
            seq![Attribute { key: ATTR_INPUT_VALUE@, value: a.value }]
        } else if a.key == "gen_ai.input.messages"@ && kind == Kind::Llm {
            flattened(messages_of(a.value.shown()), "llm.input_messages"@)
        } else if a.key == "gen_ai.output.messages"@ && kind == Kind::Llm {
            flattened(messages_of(a.value.shown()), "llm.output_messages"@)
        } else if a.key == "gen_ai.turn.reasoning"@ && shows_turns(kind) {
            seq![Attribute { key: "turn.reasoning"@, value: a.value }]
        } else {
            Seq::empty()
        },
    }
}

fn turns_shown(kind: Kind) -> (r: bool)
    ensures
        r == shows_turns(kind),
{
    kind == Kind::Chain || kind == Kind::Llm
}

fn push_renamed(key: &str, value: &AttributeValue, out: &mut Vec<KeyValue>)
    ensures
        attributes_of(final(out)@) == attributes_of(old(out)@) + seq![
            Attribute { key: key@, value: value@ },
        ],
{
    out.push(KeyValue { key: key.to_owned(), value: value.clone() });
    assert(attributes_of(out@) =~= attributes_of(old(out)@) + seq![
        Attribute { key: key@, value: value@ },
    ]);
}

/// Append the attributes that one attribute becomes.
fn translate(kind: Kind, kv: &KeyValue, out: &mut Vec<KeyValue>)
    ensures
        attributes_of(final(out)@) == attributes_of(old(out)@) + translated(kind, kv@),
{
    let key = kv.key.as_str();
    match renamed_key(key) {
        Some(to) => {
            push_renamed(to, &kv.value, out);
        },
        None => {
            if same(key, "gen_ai.tool.call.result") && kind == Kind::Tool {
                push_renamed(ATTR_OUTPUT_VALUE, &kv.value, out);
            } else if same(key, "gen_ai.turn.prompt") && turns_shown(kind) {
                push_renamed(ATTR_INPUT_VALUE, &kv.value, out);
            } else if same(key, "gen_ai.input.messages") && kind == Kind::Llm {
                expand_messages(kv.value.to_string().as_str(), "llm.input_messages", out);
            } else if same(key, "gen_ai.output.messages") && kind == Kind::Llm {
                expand_messages(kv.value.to_string().as_str(), "llm.output_messages", out);
            } else if same(key, "gen_ai.turn.reasoning") && turns_shown(kind) {
                push_renamed("turn.reasoning", &kv.value, out);
            } else {
                assert(attributes_of(out@) =~= attributes_of(out@) + Seq::<Attribute>::empty());
            }
        },
    }
}

/// The attributes that the first `n` attributes become, in their order.
pub open spec fn all_translated(kind: Kind, list: Seq<Attribute>, n: int) -> Seq<Attribute>
    decreases n,
{
    if n <= 0 || n > list.len() {
        Seq::empty()
    } else {
        all_translated(kind, list, n - 1) + translated(kind, list[n - 1])
    }
}

/// The text of the last of the first `n` attributes with a key.
pub open spec fn last_text(list: Seq<Attribute>, key: Seq<char>, n: int) -> Option<Seq<char>>
    decreases n,
{
    if n <= 0 || n > list.len() {
        None
    } else if list[n - 1].key == key {
        Some(list[n - 1].value.shown())
    } else {
        last_text(list, key, n - 1)
    }
}

/// One output message: its role and its content.
pub open spec fn output_message(i: nat, role: Seq<char>, content: Seq<char>) -> Seq<Attribute> {
    seq![
        text_attribute(message_key("llm.output_messages"@, i, "role"@), role),
        text_attribute(message_key("llm.output_messages"@, i, "content"@), content),
    ]
}

/// What becomes of a turn's response and reasoning. A model call lists them as
/// output messages, the response first; a chain shows the response as its
/// output.
pub open spec fn turn_output(
    kind: Kind,
    response: Option<Seq<char>>,
    reasoning: Option<Seq<char>>,
) -> Seq<Attribute> {
    if kind == Kind::Llm {
        let first = match response {
            Some(text) => output_message(0, "assistant"@, text),
            None => Seq::empty(),
        };
        let place: nat = if response is Some {
            1
        } else {
            0
        };
        first + (match reasoning {
            Some(text) => output_message(place, "reasoning"@, text),
            None => Seq::empty(),
        })
    } else if kind == Kind::Chain {
        match response {
            Some(text) => seq![text_attribute(ATTR_OUTPUT_VALUE@, text)],
            None => Seq::empty(),
        }
    } else {
        Seq::empty()
    }
}

fn push_output_message(i: usize, role: &str, content: &str, out: &mut Vec<KeyValue>)
    ensures
        attributes_of(final(out)@) == attributes_of(old(out)@) + output_message(
            i as nat,
            role@,
            content@,
        ),
{
    let role_key = make_message_key("llm.output_messages", i, "role");
    let content_key = make_message_key("llm.output_messages", i, "content");
    out.push(KeyValue::text(role_key.as_str(), role));
    out.push(KeyValue::text(content_key.as_str(), content));
    assert(attributes_of(out@) =~= attributes_of(old(out)@) + output_message(
        i as nat,
        role@,
        content@,
    ));
}

fn text_of(text: &Option<String>) -> (r: Option<&str>)
    ensures
        match r {
            Some(s) => *text matches Some(t) && t@ == s@,
            None => *text is None,
        },
{
    match text {
        Some(t) => Some(t.as_str()),
        None => None,
    }
}

spec fn optional_text(text: Option<String>) -> Option<Seq<char>> {
    match text {
        Some(t) => Some(t@),
        None => None,
    }
}

fn push_turn_output(
    kind: Kind,
    response: &Option<String>,
    reasoning: &Option<String>,
    out: &mut Vec<KeyValue>,
)
    ensures
        attributes_of(final(out)@) == attributes_of(old(out)@) + turn_output(
            kind,
            optional_text(*response),
            optional_text(*reasoning),
        ),
{
    let ghost before = attributes_of(out@);
    if kind == Kind::Llm {
        let mut place: usize = 0;
        match text_of(response) {
            Some(text) => {
                push_output_message(0, "assistant", text, out);
                place = 1;
            },
            None => {},
        }
        match text_of(reasoning) {
            Some(text) => {
                push_output_message(place, "reasoning", text, out);
            },
            None => {},
        }
    } else if kind == Kind::Chain {
        match text_of(response) {
            Some(text) => {
                out.push(KeyValue::text(ATTR_OUTPUT_VALUE, text));
            },
            None => {},
        }
    }
    assert(attributes_of(out@) =~= before + turn_output(
        kind,
        optional_text(*response),
        optional_text(*reasoning),
    ));
}

/// Whether a key is one that is dropped.
pub open spec fn is_gen_ai(key: Seq<char>) -> bool {
    "gen_ai."@.is_prefix_of(key)
}

/// The attributes that are not dropped, in their order.
pub open spec fn without_gen_ai(list: Seq<Attribute>) -> Seq<Attribute>
    decreases list.len(),
{
    if list.len() == 0 {
        Seq::empty()
    } else {
        let before = without_gen_ai(list.drop_last());
        if is_gen_ai(list.last().key) {
            before
        } else {
            before.push(list.last())
        }
    }
}

/// A span's attributes with its kind.
pub open spec fn with_kind(kind: Kind, list: Seq<Attribute>) -> Seq<Attribute> {
    list.push(text_attribute("openinference.span.kind"@, kind.name()))
}

/// The attributes of a span after translation: those it had, its kind, what
/// they become, and what becomes of a turn, without the `gen_ai.*` ones.
pub open spec fn transformed(kind: Kind, list: Seq<Attribute>) -> Seq<Attribute> {
    let all = with_kind(kind, list);
    let n = all.len() as int;
    let response = if shows_turns(kind) {
        last_text(all, "gen_ai.turn.response"@, n)
    } else {
        None
    };
    let reasoning = if shows_turns(kind) {
        last_text(all, "gen_ai.turn.reasoning"@, n)
    } else {
        None
    };
    without_gen_ai(all + (all_translated(kind, all, n) + turn_output(kind, response, reasoning)))
}

fn drop_gen_ai(list: Vec<KeyValue>) -> (r: Vec<KeyValue>)
    ensures
        attributes_of(r@) == without_gen_ai(attributes_of(list@)),
{
    let ghost model = attributes_of(list@);
    let mut out: Vec<KeyValue> = Vec::new();
    let mut i: usize = 0;
    assert(attributes_of(out@) =~= without_gen_ai(model.take(0)));
    while i < list.len()
        invariant
            i <= list@.len(),
            model == attributes_of(list@),
            attributes_of(out@) == without_gen_ai(model.take(i as int)),
        decreases list@.len() - i,
    {
        let ghost before = attributes_of(out@);
        proof {
            assert(model.take(i + 1).drop_last() =~= model.take(i as int));
            assert(model.take(i + 1).last() == list@[i as int]@);
        }
        if !starts_with(list[i].key.as_str(), "gen_ai.") {
            out.push(KeyValue { key: list[i].key.clone(), value: list[i].value.clone() });
            assert(attributes_of(out@) =~= before.push(list@[i as int]@));
        }
        i = i + 1;
    }
    assert(model.take(i as int) =~= model);
    out
}

/// Translate a span's attributes.
pub fn transform_span(span: SpanData) -> (r: SpanData)
    ensures
        r.name@ == span.name@,
        attributes_of(r.attributes@) == transformed(
            kind_of(span.name@),
            attributes_of(span.attributes@),
        ),
{
    let kind = span_kind(span.name.as_str());
    let mut attributes = span.attributes;
    let ghost given = attributes_of(attributes@);
    attributes.push(KeyValue::text("openinference.span.kind", kind.as_str()));
    let ghost all = with_kind(kind, given);
    assert(attributes_of(attributes@) =~= all);
    let mut extra: Vec<KeyValue> = Vec::new();
    let mut response: Option<String> = None;
    let mut reasoning: Option<String> = None;
    let mut i: usize = 0;
    assert(attributes_of(extra@) =~= all_translated(kind, all, 0));
    while i < attributes.len()
        invariant
            i <= attributes@.len(),
            all == attributes_of(attributes@),
            attributes_of(extra@) == all_translated(kind, all, i as int),
            shows_turns(kind) ==> optional_text(response) == last_text(
                all,
                "gen_ai.turn.response"@,
                i as int,
            ),
            shows_turns(kind) ==> optional_text(reasoning) == last_text(
                all,
                "gen_ai.turn.reasoning"@,
                i as int,
            ),
            !shows_turns(kind) ==> response is None && reasoning is None,
        decreases attributes@.len() - i,
    {
        translate(kind, &attributes[i], &mut extra);
        assert(all[i as int] == attributes@[i as int]@);
        let key = attributes[i].key.as_str();
        if turns_shown(kind) {
            if same(key, "gen_ai.turn.response") {
                response = Some(attributes[i].value.to_string());
            }
            if same(key, "gen_ai.turn.reasoning") {
                reasoning = Some(attributes[i].value.to_string());
            }
        }
        i = i + 1;
    }
    push_turn_output(kind, &response, &reasoning, &mut extra);
    let ghost added = attributes_of(extra@);
    let ghost first = attributes@;
    let ghost second = extra@;
    attributes.append(&mut extra);
    assert(attributes_of(attributes@) =~= all + added);
    SpanData { name: span.name, attributes: drop_gen_ai(attributes) }
}

// ---------------------------------------------------------------------------
// Batches
// ---------------------------------------------------------------------------

/// Hands spans on to another exporter, translated.
#[derive(Debug)]
pub struct OpenInferenceExporter<E> {
    inner: E,
}

/// Whether `r` is a span after translation.
pub open spec fn is_translation(r: SpanData, span: SpanData) -> bool {
    &&& r.name@ == span.name@
    &&& attributes_of(r.attributes@) == transformed(
        kind_of(span.name@),
        attributes_of(span.attributes@),
    )
}

impl<E> OpenInferenceExporter<E> {
    /// The exporter that spans are handed on to.
    pub closed spec fn target(self) -> E {
        self.inner
    }

    /// Wraps an exporter.
    pub fn new(inner: E) -> (r: OpenInferenceExporter<E>)
        ensures
            r.target() == inner,
    {
        OpenInferenceExporter { inner }
    }

    /// The exporter that spans are handed on to.
    pub fn into_inner(self) -> (r: E)
        ensures
            r == self.target(),
    {
        self.inner
    }

    /// What is handed on for a batch: every span, translated, in order.
    pub fn translate_batch(&self, batch: Vec<SpanData>) -> (r: Vec<SpanData>)
        ensures
            r.len() == batch.len(),
            forall|i: int| 0 <= i < r.len() ==> is_translation(#[trigger] r@[i], batch@[i]),
    {
        let ghost all = batch@;
        let mut batch = batch;
        let mut r: Vec<SpanData> = Vec::new();
        while batch.len() > 0
            invariant
                r.len() <= all.len(),
                batch@ == all.skip(r.len() as int),
                forall|i: int| 0 <= i < r.len() ==> is_translation(#[trigger] r@[i], all[i]),
            decreases batch.len(),
        {
            let span = batch.remove(0);
            assert(batch@ =~= all.skip(r.len() + 1));
            r.push(transform_span(span));
        }
        r
    }
}

// ---------------------------------------------------------------------------
// Laws
// ---------------------------------------------------------------------------

/// No `gen_ai.*` attribute is left.
pub proof fn law_no_gen_ai_is_left(kind: Kind, list: Seq<Attribute>, i: int)
    requires
        0 <= i < transformed(kind, list).len(),
    ensures
        !is_gen_ai(transformed(kind, list)[i].key),
{
    let all = with_kind(kind, list);
    let n = all.len() as int;
    let response = if shows_turns(kind) {
        last_text(all, "gen_ai.turn.response"@, n)
    } else {
        None
    };
    let reasoning = if shows_turns(kind) {
        last_text(all, "gen_ai.turn.reasoning"@, n)
    } else {
        None
    };
    lemma_without_gen_ai(
        all + (all_translated(kind, all, n) + turn_output(kind, response, reasoning)),
        i,
    );
}

proof fn lemma_without_gen_ai(list: Seq<Attribute>, i: int)
    requires
        0 <= i < without_gen_ai(list).len(),
    ensures
        !is_gen_ai(without_gen_ai(list)[i].key),
    decreases list.len(),
{
    if list.len() > 0 {
        if i < without_gen_ai(list.drop_last()).len() {
            lemma_without_gen_ai(list.drop_last(), i);
        }
    }
}

proof fn lemma_without_gen_ai_concat(a: Seq<Attribute>, b: Seq<Attribute>)
    ensures
        without_gen_ai(a + b) == without_gen_ai(a) + without_gen_ai(b),
    decreases b.len(),
{
    if b.len() == 0 {
        assert(a + b =~= a);
        assert(without_gen_ai(a) + without_gen_ai(b) =~= without_gen_ai(a));
    } else {
        assert((a + b).drop_last() =~= a + b.drop_last());
        assert((a + b).last() == b.last());
        lemma_without_gen_ai_concat(a, b.drop_last());
        assert(without_gen_ai(a + b) =~= without_gen_ai(a) + without_gen_ai(b));
    }
}

/// What a span had under other names stands first and as it was, and its kind
/// follows; translation only adds.
pub proof fn law_other_attributes_stay(kind: Kind, list: Seq<Attribute>)
    ensures
        without_gen_ai(list).push(
            text_attribute("openinference.span.kind"@, kind.name()),
        ).is_prefix_of(transformed(kind, list)),
{
    reveal_strlit("gen_ai.");
    reveal_strlit("openinference.span.kind");
    let all = with_kind(kind, list);
    let n = all.len() as int;
    let response = if shows_turns(kind) {
        last_text(all, "gen_ai.turn.response"@, n)
    } else {
        None
    };
    let reasoning = if shows_turns(kind) {
        last_text(all, "gen_ai.turn.reasoning"@, n)
    } else {
        None
    };
    let more = all_translated(kind, all, n) + turn_output(kind, response, reasoning);
    lemma_without_gen_ai_concat(all, more);
    assert(all.drop_last() =~= list);
    assert(!is_gen_ai("openinference.span.kind"@)) by {
        if is_gen_ai("openinference.span.kind"@) {
            assert("openinference.span.kind"@.subrange(0, "gen_ai."@.len() as int)[0] == 'g');
        }
    }
    let head = without_gen_ai(list).push(
        text_attribute("openinference.span.kind"@, kind.name()),
    );
    assert(without_gen_ai(all) == head);
    assert(transformed(kind, list).subrange(0, head.len() as int) =~= head);
}

/// Messages are flattened in model calls only: elsewhere an attribute with
/// messages becomes nothing.
pub proof fn law_messages_in_model_calls_only(kind: Kind, a: Attribute)
    requires
        kind != Kind::Llm,
        a.key == "gen_ai.input.messages"@ || a.key == "gen_ai.output.messages"@,
    ensures
        translated(kind, a) == Seq::<Attribute>::empty(),
{
    reveal_strlit("gen_ai.input.messages");
    reveal_strlit("gen_ai.output.messages");
    reveal_strlit("gen_ai.system");
    reveal_strlit("gen_ai.provider.name");
    reveal_strlit("gen_ai.request.model");
    reveal_strlit("gen_ai.usage.input_tokens");
    reveal_strlit("gen_ai.usage.output_tokens");
    reveal_strlit("gen_ai.tool.name");
    reveal_strlit("gen_ai.tool.call.arguments");
    reveal_strlit("gen_ai.agent.name");
    reveal_strlit("gen_ai.agent.turn");
    reveal_strlit("gen_ai.agent.max_turns");
    reveal_strlit("gen_ai.turn.history_len");
    reveal_strlit("gen_ai.turn.tool_count");
    reveal_strlit("gen_ai.turn.has_tool_calls");
    reveal_strlit("gen_ai.tool.call.result");
    reveal_strlit("gen_ai.turn.prompt");
    reveal_strlit("gen_ai.turn.reasoning");
    assert(a.key[7] == 'i' || a.key[7] == 'o');
    assert("gen_ai.system"@[7] == 's');
    assert("gen_ai.provider.name"@[7] == 'p');
    assert("gen_ai.request.model"@[7] == 'r');
    assert("gen_ai.usage.input_tokens"@[7] == 'u');
    assert("gen_ai.usage.output_tokens"@[7] == 'u');
    assert("gen_ai.tool.name"@[7] == 't');
    assert("gen_ai.tool.call.arguments"@[7] == 't');
    assert("gen_ai.agent.name"@[7] == 'a');
    assert("gen_ai.agent.turn"@[7] == 'a');
    assert("gen_ai.agent.max_turns"@[7] == 'a');
    assert("gen_ai.turn.history_len"@[7] == 't');
    assert("gen_ai.turn.tool_count"@[7] == 't');
    assert("gen_ai.turn.has_tool_calls"@[7] == 't');
    assert("gen_ai.tool.call.result"@[7] == 't');
    assert("gen_ai.turn.prompt"@[7] == 't');
    assert("gen_ai.turn.reasoning"@[7] == 't');
}

/// Whether a key is one of an output message.
pub open spec fn is_output_key(key: Seq<char>) -> bool {
    "llm.output_messages."@.is_prefix_of(key)
}

/// The attributes of output messages, in their order.
pub open spec fn output_messages(list: Seq<Attribute>) -> Seq<Attribute>
    decreases list.len(),
{
    if list.len() == 0 {
        Seq::empty()
    } else {
        let before = output_messages(list.drop_last());
        if is_output_key(list.last().key) {
            before.push(list.last())
        } else {
            before
        }
    }
}

/// Whether a list has no attribute of an output message.
spec fn has_no_output(list: Seq<Attribute>) -> bool {
    forall|i: int| 0 <= i < list.len() ==> !is_output_key((#[trigger] list[i]).key)
}

proof fn lemma_output_messages_concat(a: Seq<Attribute>, b: Seq<Attribute>)
    ensures
        output_messages(a + b) == output_messages(a) + output_messages(b),
    decreases b.len(),
{
    if b.len() == 0 {
        assert(a + b =~= a);
        assert(output_messages(a) + output_messages(b) =~= output_messages(a));
    } else {
        assert((a + b).drop_last() =~= a + b.drop_last());
        assert((a + b).last() == b.last());
        lemma_output_messages_concat(a, b.drop_last());
        assert(output_messages(a + b) =~= output_messages(a) + output_messages(b));
    }
}

proof fn lemma_no_output(list: Seq<Attribute>)
    requires
        has_no_output(list),
    ensures
        output_messages(list) == Seq::<Attribute>::empty(),
    decreases list.len(),
{
    if list.len() > 0 {
        assert forall|i: int| 0 <= i < list.drop_last().len() implies !is_output_key(
            (#[trigger] list.drop_last()[i]).key,
        ) by {
            assert(list.drop_last()[i] == list[i]);
        }
        lemma_no_output(list.drop_last());
        assert(list.last() == list[list.len() - 1]);
    }
}

proof fn lemma_all_output(list: Seq<Attribute>)
    requires
        forall|i: int| 0 <= i < list.len() ==> is_output_key((#[trigger] list[i]).key),
    ensures
        output_messages(list) == list,
    decreases list.len(),
{
    if list.len() > 0 {
        assert forall|i: int| 0 <= i < list.drop_last().len() implies is_output_key(
            (#[trigger] list.drop_last()[i]).key,
        ) by {
            assert(list.drop_last()[i] == list[i]);
        }
        lemma_all_output(list.drop_last());
        assert(list.last() == list[list.len() - 1]);
        assert(list.drop_last().push(list.last()) =~= list);
    }
}

/// What is dropped is no attribute of an output message.
proof fn lemma_outputs_are_not_dropped(list: Seq<Attribute>)
    ensures
        output_messages(without_gen_ai(list)) == output_messages(list),
    decreases list.len(),
{
    if list.len() > 0 {
        lemma_outputs_are_not_dropped(list.drop_last());
        let key = list.last().key;
        let before = without_gen_ai(list.drop_last());
        if is_gen_ai(key) {
            reveal_strlit("gen_ai.");
            reveal_strlit("llm.output_messages.");
            assert(key.subrange(0, "gen_ai."@.len() as int)[0] == 'g');
            if is_output_key(key) {
                assert(key.subrange(0, "llm.output_messages."@.len() as int)[0] == 'l');
            }
        } else {
            assert(before.push(list.last()).drop_last() =~= before);
        }
    }
}

/// A key that differs from those of output messages in one of their first
/// characters is none of them.
proof fn lemma_not_output(key: Seq<char>, i: int)
    requires
        0 <= i < 5,
        i < key.len(),
        key[i] != "llm.output_messages."@[i],
    ensures
        !is_output_key(key),
{
    reveal_strlit("llm.output_messages.");
    if is_output_key(key) {
        assert(key.subrange(0, "llm.output_messages."@.len() as int)[i] == key[i]);
    }
}

proof fn lemma_renamed_is_not_output(key: Seq<char>)
    ensures
        renamed(key) matches Some(to) ==> !is_output_key(to),
{
    reveal_strlit("llm.output_messages.");
    reveal_strlit("llm.system");
    reveal_strlit("llm.model_name");
    reveal_strlit("llm.token_count.prompt");
    reveal_strlit("llm.token_count.completion");
    reveal_strlit("tool.name");
    reveal_strlit("tool.parameters");
    reveal_strlit("agent.name");
    reveal_strlit("agent.turn");
    reveal_strlit("agent.max_turns");
    reveal_strlit("turn.history_len");
    reveal_strlit("turn.tool_count");
    reveal_strlit("turn.has_tool_calls");
    lemma_not_output(ATTR_LLM_SYSTEM@, 4);
    lemma_not_output(ATTR_LLM_MODEL_NAME@, 4);
    lemma_not_output(ATTR_LLM_TOKEN_PROMPT@, 4);
    lemma_not_output(ATTR_LLM_TOKEN_COMPLETION@, 4);
    lemma_not_output(ATTR_TOOL_NAME@, 0);
    lemma_not_output(ATTR_TOOL_PARAMETERS@, 0);
    lemma_not_output("agent.name"@, 0);
    lemma_not_output("agent.turn"@, 0);
    lemma_not_output("agent.max_turns"@, 0);
    lemma_not_output("turn.history_len"@, 0);
    lemma_not_output("turn.tool_count"@, 0);
    lemma_not_output("turn.has_tool_calls"@, 0);
}

proof fn lemma_input_messages_are_not_output(rows: Seq<Seq<RowMember>>, n: int)
    ensures
        has_no_output(message_attributes(rows, "llm.input_messages"@, n)),
    decreases n,
{
    if 0 < n <= rows.len() {
        lemma_input_messages_are_not_output(rows, n - 1);
        let prefix = "llm.input_messages"@;
        let i = (n - 1) as nat;
        reveal_strlit("llm.input_messages");
        reveal_strlit("llm.output_messages.");
        lemma_not_output(message_key(prefix, i, "role"@), 4);
        lemma_not_output(message_key(prefix, i, "content"@), 4);
    }
}

/// Apart from the output messages that a span brings along, no attribute of a
/// model call becomes one of an output message.
proof fn lemma_translated_is_not_output(a: Attribute)
    requires
        a.key != "gen_ai.output.messages"@,
    ensures
        has_no_output(translated(Kind::Llm, a)),
{
    lemma_renamed_is_not_output(a.key);
    reveal_strlit("llm.output_messages.");
    reveal_strlit("input.value");
    reveal_strlit("turn.reasoning");
    lemma_not_output(ATTR_INPUT_VALUE@, 0);
    lemma_not_output("turn.reasoning"@, 0);
    match messages_of(a.value.shown()) {
        Some(rows) => {
            lemma_input_messages_are_not_output(rows, rows.len() as int);
        },
        None => {},
    }
}

proof fn lemma_all_translated_is_not_output(list: Seq<Attribute>, n: int)
    requires
        0 <= n <= list.len(),
        forall|i: int|
            0 <= i < list.len() ==> (#[trigger] list[i]).key != "gen_ai.output.messages"@,
    ensures
        has_no_output(all_translated(Kind::Llm, list, n)),
    decreases n,
{
    if n > 0 {
        lemma_all_translated_is_not_output(list, n - 1);
        lemma_translated_is_not_output(list[n - 1]);
        let a = all_translated(Kind::Llm, list, n - 1);
        let b = translated(Kind::Llm, list[n - 1]);
        assert forall|i: int| 0 <= i < (a + b).len() implies !is_output_key(
            (#[trigger] (a + b)[i]).key,
        ) by {
            if i < a.len() {
                assert((a + b)[i] == a[i]);
            } else {
                assert((a + b)[i] == b[i - a.len()]);
            }
        }
    }
}

proof fn lemma_turn_output_is_output(response: Option<Seq<char>>, reasoning: Option<Seq<char>>)
    ensures
        output_messages(turn_output(Kind::Llm, response, reasoning)) == turn_output(
            Kind::Llm,
            response,
            reasoning,
        ),
{
    reveal_strlit("llm.output_messages");
    reveal_strlit("llm.output_messages.");
    reveal_strlit(".");
    let prefix = "llm.output_messages"@;
    assert(prefix + "."@ =~= "llm.output_messages."@);
    assert forall|i: nat, part: Seq<char>| is_output_key(#[trigger] message_key(prefix, i, part)) by {
        let key = message_key(prefix, i, part);
        assert(key.subrange(0, "llm.output_messages."@.len() as int) =~= prefix + "."@);
    }
    lemma_all_output(turn_output(Kind::Llm, response, reasoning));
}

/// Whether no two attributes of a list have a key.
pub open spec fn at_most_once(list: Seq<Attribute>, key: Seq<char>) -> bool {
    forall|i: int, j: int|
        0 <= i < j < list.len() && (#[trigger] list[i]).key == key ==> (#[trigger] list[j]).key
            != key
}

proof fn lemma_last_text(list: Seq<Attribute>, key: Seq<char>, n: int)
    requires
        0 <= n <= list.len(),
    ensures
        match last_text(list, key, n) {
            Some(text) => exists|i: int|
                0 <= i < n && (#[trigger] list[i]).key == key && list[i].value.shown() == text,
            None => forall|i: int| 0 <= i < n ==> (#[trigger] list[i]).key != key,
        },
    decreases n,
{
    if n > 0 && list[n - 1].key != key {
        lemma_last_text(list, key, n - 1);
    }
}

/// The text under a key does not depend on the order of a list that has the
/// key at most once.
proof fn lemma_last_text_of_any_order(a: Seq<Attribute>, b: Seq<Attribute>, key: Seq<char>)
    requires
        a.to_multiset() == b.to_multiset(),
        at_most_once(a, key),
    ensures
        last_text(a, key, a.len() as int) == last_text(b, key, b.len() as int),
{
    broadcast use vstd::seq_lib::group_to_multiset_ensures;

    lemma_last_text(a, key, a.len() as int);
    lemma_last_text(b, key, b.len() as int);
    assert forall|x: Attribute| a.contains(x) == b.contains(x) by {
        assert(a.contains(x) <==> a.to_multiset().count(x) > 0);
        assert(b.contains(x) <==> b.to_multiset().count(x) > 0);
    }
    if last_text(b, key, b.len() as int) is Some {
        let j = choose|j: int|
            0 <= j < b.len() && (#[trigger] b[j]).key == key && b[j].value.shown() == last_text(
                b,
                key,
                b.len() as int,
            )->0;
        assert(b.contains(b[j]));
        assert(a.contains(b[j]));
        let k = a.index_of(b[j]);
        assert(a[k].key == key);
        let i = choose|i: int|
            0 <= i < a.len() && (#[trigger] a[i]).key == key && a[i].value.shown() == last_text(
                a,
                key,
                a.len() as int,
            )->0;
        assert(i == k);
    } else if last_text(a, key, a.len() as int) is Some {
        let i = choose|i: int| 0 <= i < a.len() && (#[trigger] a[i]).key == key;
        assert(a.contains(a[i]));
        assert(b.contains(a[i]));
        let k = b.index_of(a[i]);
        assert(b[k].key == key);
    }
}

/// The kind of a span is under neither of a turn's keys.
proof fn lemma_kind_is_no_turn(list: Seq<Attribute>, key: Seq<char>)
    requires
        key == "gen_ai.turn.response"@ || key == "gen_ai.turn.reasoning"@,
    ensures
        last_text(with_kind(Kind::Llm, list), key, list.len() as int + 1) == last_text(
            list,
            key,
            list.len() as int,
        ),
{
    reveal_strlit("openinference.span.kind");
    reveal_strlit("gen_ai.turn.response");
    reveal_strlit("gen_ai.turn.reasoning");
    let all = with_kind(Kind::Llm, list);
    assert(all[list.len() as int].key[0] == 'o');
    assert(key[0] == 'g');
    lemma_last_text_of_prefix(all, list, key, list.len() as int);
}

proof fn lemma_last_text_of_prefix(a: Seq<Attribute>, b: Seq<Attribute>, key: Seq<char>, n: int)
    requires
        0 <= n <= a.len(),
        n <= b.len(),
        forall|i: int| 0 <= i < n ==> #[trigger] a[i] == b[i],
    ensures
        last_text(a, key, n) == last_text(b, key, n),
    decreases n,
{
    if n > 0 {
        assert(a[n - 1] == b[n - 1]);
        lemma_last_text_of_prefix(a, b, key, n - 1);
    }
}

/// The output messages of a model call that brings none along: the turn's
/// response and its reasoning.
proof fn lemma_output_messages_of_a_turn(list: Seq<Attribute>)
    requires
        forall|i: int|
            0 <= i < list.len() ==> (#[trigger] list[i]).key != "gen_ai.output.messages"@
                && !is_output_key(list[i].key),
    ensures
        output_messages(transformed(Kind::Llm, list)) == turn_output(
            Kind::Llm,
            last_text(list, "gen_ai.turn.response"@, list.len() as int),
            last_text(list, "gen_ai.turn.reasoning"@, list.len() as int),
        ),
{
    let all = with_kind(Kind::Llm, list);
    let n = all.len() as int;
    let response = last_text(all, "gen_ai.turn.response"@, n);
    let reasoning = last_text(all, "gen_ai.turn.reasoning"@, n);
    let translations = all_translated(Kind::Llm, all, n);
    let outputs = turn_output(Kind::Llm, response, reasoning);
    reveal_strlit("openinference.span.kind");
    reveal_strlit("llm.output_messages.");
    reveal_strlit("gen_ai.output.messages");
    lemma_not_output("openinference.span.kind"@, 0);
    assert("openinference.span.kind"@[0] != "gen_ai.output.messages"@[0]);
    assert forall|i: int| 0 <= i < all.len() implies (#[trigger] all[i]).key
        != "gen_ai.output.messages"@ && !is_output_key(all[i].key) by {
        if i < list.len() {
            assert(all[i] == list[i]);
        }
    }
    lemma_no_output(all);
    lemma_all_translated_is_not_output(all, n);
    lemma_no_output(translations);
    lemma_turn_output_is_output(response, reasoning);
    lemma_output_messages_concat(translations, outputs);
    lemma_output_messages_concat(all, translations + outputs);
    lemma_outputs_are_not_dropped(all + (translations + outputs));
    lemma_kind_is_no_turn(list, "gen_ai.turn.response"@);
    lemma_kind_is_no_turn(list, "gen_ai.turn.reasoning"@);
    assert(Seq::<Attribute>::empty() + (Seq::<Attribute>::empty() + outputs) =~= outputs);
}

/// The order in which a turn's attributes stand makes no difference to its
/// output messages. The response, where there is one, is the first with the
/// role `assistant`; the reasoning, where there is one, follows it, or is the
/// first itself, with the role `reasoning`.
pub proof fn law_order_leaves_output_messages(a: Seq<Attribute>, b: Seq<Attribute>)
    requires
        a.to_multiset() == b.to_multiset(),
        at_most_once(a, "gen_ai.turn.response"@),
        at_most_once(a, "gen_ai.turn.reasoning"@),
        forall|i: int|
            0 <= i < a.len() ==> (#[trigger] a[i]).key != "gen_ai.output.messages"@
                && !is_output_key(a[i].key),
    ensures
        kind_of("agent.turn"@) == Kind::Llm,
        output_messages(transformed(Kind::Llm, a)) == output_messages(transformed(Kind::Llm, b)),
        output_messages(transformed(Kind::Llm, a)) == turn_output(
            Kind::Llm,
            last_text(a, "gen_ai.turn.response"@, a.len() as int),
            last_text(a, "gen_ai.turn.reasoning"@, a.len() as int),
        ),
{
    broadcast use vstd::seq_lib::group_to_multiset_ensures;

    assert forall|i: int| 0 <= i < b.len() implies (#[trigger] b[i]).key
        != "gen_ai.output.messages"@ && !is_output_key(b[i].key) by {
        assert(b.contains(b[i]));
        assert(b.to_multiset().count(b[i]) > 0);
        assert(a.contains(b[i]));
        let k = a.index_of(b[i]);
        assert(a[k] == b[i]);
    }
    lemma_output_messages_of_a_turn(a);
    lemma_output_messages_of_a_turn(b);
    lemma_last_text_of_any_order(a, b, "gen_ai.turn.response"@);
    lemma_last_text_of_any_order(a, b, "gen_ai.turn.reasoning"@);
}

} // verus!
