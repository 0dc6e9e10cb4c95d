//! JSON values, as far as tool arguments, schemas and wrapper data go.
use crate::text::numerals::{i64_text, numeral, signed_numeral, u64_text};
use crate::text::same;
use vstd::prelude::*;

pub mod ordering;

verus! {

/// A JSON value. A number is an unsigned integer, a negative integer, or
/// anything else, which is kept as it is written.
#[derive(Debug, PartialEq, Eq)]
pub enum Json {
    Null,
    Bool(bool),
    UInt(u64),
    Int(i64),
    Float(String),
    Text(String),
    Array(Vec<Json>),
    Object(Vec<Member>),
}

/// One member of a JSON object.
#[derive(Debug, PartialEq, Eq)]
pub struct Member {
    pub key: String,
    pub value: Json,
}

// ---------------------------------------------------------------------------
// What a value is
// ---------------------------------------------------------------------------

/// What a JSON value is.
pub enum Doc {
    Null,
    Bool(bool),
    UInt(u64),
    Int(i64),
    Float(Seq<char>),
    Text(Seq<char>),
    Array(Seq<Doc>),
    Object(Seq<(Seq<char>, Doc)>),
}

/// What the first `n` items are.
pub open spec fn docs(items: Seq<Json>, n: int) -> Seq<Doc>
    decreases items, n,
{
    if n <= 0 || n > items.len() {
        Seq::empty()
    } else {
        docs(items, n - 1).push(doc(items[n - 1]))
    }
}

/// What the first `n` members are.
pub open spec fn member_docs(members: Seq<Member>, n: int) -> Seq<(Seq<char>, Doc)>
    decreases members, n,
{
    if n <= 0 || n > members.len() {
        Seq::empty()
    } else {
        member_docs(members, n - 1).push((members[n - 1].key@, doc(members[n - 1].value)))
    }
}

/// What a value is.
pub open spec fn doc(v: Json) -> Doc
    decreases v,
{
    match v {
        Json::Null => Doc::Null,
        Json::Bool(b) => Doc::Bool(b),
        Json::UInt(n) => Doc::UInt(n),
        Json::Int(n) => Doc::Int(n),
        Json::Float(s) => Doc::Float(s@),
        Json::Text(s) => Doc::Text(s@),
        Json::Array(items) => Doc::Array(docs(items@, items@.len() as int)),
        Json::Object(members) => Doc::Object(member_docs(members@, members@.len() as int)),
    }
}

impl View for Json {
    type V = Doc;

    open spec fn view(&self) -> Doc {
        doc(*self)
    }
}

/// What each item is.
pub proof fn lemma_docs(items: Seq<Json>, n: int)
    requires
        0 <= n <= items.len(),
    ensures
        docs(items, n).len() == n,
        forall|i: int| 0 <= i < n ==> #[trigger] docs(items, n)[i] == items[i]@,
    decreases n,
{
    reveal_with_fuel(docs, 2);
    reveal_with_fuel(doc, 2);
    if n > 0 {
        lemma_docs(items, n - 1);
    }
}

/// What each member is.
pub proof fn lemma_member_docs(members: Seq<Member>, n: int)
    requires
        0 <= n <= members.len(),
    ensures
        member_docs(members, n).len() == n,
        forall|i: int|
            0 <= i < n ==> #[trigger] member_docs(members, n)[i] == (
                members[i].key@,
                members[i].value@,
            ),
    decreases n,
{
    reveal_with_fuel(member_docs, 2);
    reveal_with_fuel(doc, 2);
    if n > 0 {
        lemma_member_docs(members, n - 1);
    }
}

/// An item more leaves what the earlier ones are.
pub proof fn lemma_docs_push(items: Seq<Json>, v: Json)
    ensures
        docs(items.push(v), items.len() as int) == docs(items, items.len() as int),
        docs(items.push(v), items.len() as int + 1) == docs(items, items.len() as int).push(v@),
{
    lemma_docs(items, items.len() as int);
    lemma_docs(items.push(v), items.len() as int);
    assert(docs(items.push(v), items.len() as int) =~= docs(items, items.len() as int));
    reveal_with_fuel(docs, 2);
}

/// A member more leaves what the earlier ones are.
pub proof fn lemma_member_docs_push(members: Seq<Member>, m: Member)
    ensures
        member_docs(members.push(m), members.len() as int) == member_docs(
            members,
            members.len() as int,
        ),
        member_docs(members.push(m), members.len() as int + 1) == member_docs(
            members,
            members.len() as int,
        ).push((m.key@, m.value@)),
{
    lemma_member_docs(members, members.len() as int);
    lemma_member_docs(members.push(m), members.len() as int);
    assert(member_docs(members.push(m), members.len() as int) =~= member_docs(
        members,
        members.len() as int,
    ));
    reveal_with_fuel(member_docs, 2);
}

/// A copy of a value.
pub fn copy(v: &Json) -> (r: Json)
    ensures
        r@ == v@,
    decreases v,
{
    match v {
        Json::Null => Json::Null,
        Json::Bool(b) => Json::Bool(*b),
        Json::UInt(n) => Json::UInt(*n),
        Json::Int(n) => Json::Int(*n),
        Json::Float(s) => Json::Float(s.clone()),
        Json::Text(s) => Json::Text(s.clone()),
        Json::Array(items) => Json::Array(copy_items(items)),
        Json::Object(members) => Json::Object(copy_members(members)),
    }
}

/// A copy of an array's items.
pub fn copy_items(items: &Vec<Json>) -> (r: Vec<Json>)
    ensures
        docs(r@, r@.len() as int) == docs(items@, items@.len() as int),
    decreases items@,
{
    let mut r: Vec<Json> = Vec::new();
    for i in 0..items.len()
        invariant
            r.len() == i,
            docs(r@, i as int) == docs(items@, i as int),
    {
        assert(decreases_to!(items@ => items@[i as int]));
        let ghost before = r@;
        r.push(copy(&items[i]));
        proof {
            lemma_docs_push(before, r@.last());
            reveal_with_fuel(docs, 2);
        }
    }
    r
}

/// A copy of an object's members.
pub fn copy_members(members: &Vec<Member>) -> (r: Vec<Member>)
    ensures
        member_docs(r@, r@.len() as int) == member_docs(members@, members@.len() as int),
    decreases members@,
{
    let mut r: Vec<Member> = Vec::new();
    for i in 0..members.len()
        invariant
            r.len() == i,
            member_docs(r@, i as int) == member_docs(members@, i as int),
    {
        assert(decreases_to!(members@ => members@[i as int]));
        let ghost before = r@;
        r.push(Member { key: members[i].key.clone(), value: copy(&members[i].value) });
        proof {
            lemma_member_docs_push(before, r@.last());
            reveal_with_fuel(member_docs, 2);
        }
    }
    r
}

// ---------------------------------------------------------------------------
// Reading
// ---------------------------------------------------------------------------

/// The value of the first member with a key, at or after place `i`.
pub open spec fn find_member(members: Seq<Member>, key: Seq<char>, i: int) -> Option<Json>
    decreases members.len() - i,
{
    if i < 0 || i >= members.len() {
        None
    } else if members[i].key@ == key {
        Some(members[i].value)
    } else {
        find_member(members, key, i + 1)
    }
}

impl Json {
    /// The member of an object with a key; anything else has none.
    pub open spec fn member(self, key: Seq<char>) -> Option<Json> {
        match self {
            Json::Object(members) => find_member(members@, key, 0),
            _ => None,
        }
    }

    /// The text of a string.
    pub open spec fn text(self) -> Option<Seq<char>> {
        match self {
            Json::Text(s) => Some(s@),
            _ => None,
        }
    }

    /// The value of an unsigned integer.
    pub open spec fn unsigned(self) -> Option<u64> {
        match self {
            Json::UInt(n) => Some(n),
            _ => None,
        }
    }

    /// The member of an object with a key.
    pub fn get(&self, key: &str) -> (r: Option<&Json>)
        ensures
            match r {
                Some(v) => self.member(key@) == Some(*v),
                None => self.member(key@) is None,
            },
    {
        match self {
            Json::Object(members) => {
                let mut i: usize = 0;
                while i < members.len()
                    invariant
                        i <= members@.len(),
                        self.member(key@) == find_member(members@, key@, i as int),
                    decreases members@.len() - i,
                {
                    if same(members[i].key.as_str(), key) {
                        return Some(&members[i].value);
                    }
                    i = i + 1;
                }
                None
            },
            _ => None,
        }
    }

    /// The text of a string.
    pub fn as_str(&self) -> (r: Option<&str>)
        ensures
            match r {
                Some(s) => self.text() == Some(s@),
                None => self.text() is None,
            },
    {
        match self {
            Json::Text(s) => Some(s.as_str()),
            _ => None,
        }
    }

    /// The value of an unsigned integer.
    pub fn as_u64(&self) -> (r: Option<u64>)
        ensures
            r == self.unsigned(),
    {
        match self {
            Json::UInt(n) => Some(*n),
            _ => None,
        }
    }
}

// ---------------------------------------------------------------------------
// Writing scalars
// ---------------------------------------------------------------------------

/// A lower-case hexadecimal digit.
pub open spec fn hex_digit(d: int) -> char {
    if d == 0 {
        '0'
    } else if d == 1 {
        '1'
    } else if d == 2 {
        '2'
    } else if d == 3 {
        '3'
    } else if d == 4 {
        '4'
    } else if d == 5 {
        '5'
    } else if d == 6 {
        '6'
    } else if d == 7 {
        '7'
    } else if d == 8 {
        '8'
    } else if d == 9 {
        '9'
    } else if d == 10 {
        'a'
    } else if d == 11 {
        'b'
    } else if d == 12 {
        'c'
    } else if d == 13 {
        'd'
    } else if d == 14 {
        'e'
    } else {
        'f'
    }
}

/// A character as it stands in a JSON string: quote, backslash and control
/// characters are escaped.
pub open spec fn escaped_char(c: char) -> Seq<char> {
    let u = c as u32;
    if u == 0x22 {
        seq!['\\', '"']
    } else if u == 0x5c {
        seq!['\\', '\\']
    } else if u == 0x8 {
        seq!['\\', 'b']
    } else if u == 0x9 {
        seq!['\\', 't']
    } else if u == 0xa {
        seq!['\\', 'n']
    } else if u == 0xc {
        seq!['\\', 'f']
    } else if u == 0xd {
        seq!['\\', 'r']
    } else if u < 0x20 {
        seq!['\\', 'u', '0', '0', hex_digit(u as int / 16), hex_digit(u as int % 16)]
    } else {
        seq![c]
    }
}

/// A text with each character escaped.
pub open spec fn escaped(s: Seq<char>) -> Seq<char>
    decreases s.len(),
{
    if s.len() == 0 {
        Seq::empty()
    } else {
        escaped(s.drop_last()) + escaped_char(s.last())
    }
}

/// A text as a JSON string, in double quotes.
pub open spec fn quoted(s: Seq<char>) -> Seq<char> {
    seq!['"'] + escaped(s) + seq!['"']
}

/// The text of a string value as `serde_json` displays it
/// (`serde_json::Value`'s `to_string`): in double quotes, with quote,
/// backslash and the control characters below U+0020 escaped, and every other
/// character as it is.
#[verifier::external_body]
pub(crate) fn quote(s: &str) -> (r: String)
    ensures
        r@ == quoted(s@),
{
    serde_json::Value::from(s).to_string()
}

/// The text of a value that is neither an array nor an object.
pub open spec fn scalar_text(v: Json) -> Seq<char> {
    match v {
        Json::Null => "null"@,
        Json::Bool(b) => if b {
            "true"@
        } else {
            "false"@
        },
        Json::UInt(n) => numeral(n as nat),
        Json::Int(n) => signed_numeral(n as int),
        Json::Float(s) => s@,
        Json::Text(s) => quoted(s@),
        Json::Array(_) => Seq::empty(),
        Json::Object(_) => Seq::empty(),
    }
}

/// Write a value that is neither an array nor an object.
pub fn write_scalar(v: &Json) -> (r: String)
    ensures
        r@ == scalar_text(*v),
{
    match v {
        Json::Null => "null".to_owned(),
        Json::Bool(b) => if *b {
            "true".to_owned()
        } else {
            "false".to_owned()
        },
        Json::UInt(n) => u64_text(*n),
        Json::Int(n) => i64_text(*n),
        Json::Float(s) => s.clone(),
        Json::Text(s) => quote(s.as_str()),
        Json::Array(_) => String::new(),
        Json::Object(_) => String::new(),
    }
}

// ---------------------------------------------------------------------------
// Documents
// ---------------------------------------------------------------------------

/// A value as `serde_json` holds it.
#[verifier::external_type_specification]
#[verifier::external_body]
pub struct ExValue(serde_json::Value);

/// The same value out of `serde_json::Value`, variant by variant; a number
/// that is no integer becomes the text that it displays as.
#[verifier::external_body]
fn from_value(value: serde_json::Value) -> (r: Json) {
    match value {
        serde_json::Value::Null => Json::Null,
        serde_json::Value::Bool(b) => Json::Bool(b),
        serde_json::Value::Number(n) => match (n.as_u64(), n.as_i64()) {
            (Some(n), _) => Json::UInt(n),
            (None, Some(n)) => Json::Int(n),
            (None, None) => Json::Float(n.to_string()),
        },
        serde_json::Value::String(s) => Json::Text(s),
        serde_json::Value::Array(items) => Json::Array(items.into_iter().map(from_value).collect()),
        serde_json::Value::Object(map) => Json::Object(
            map.into_iter().map(|(key, v)| Member { key, value: from_value(v) }).collect()),
    }
}

/// The same value as a `serde_json::Value`, variant by variant; of two members
/// with one key the later one stays, and a number that is no integer is read
/// from its text.
#[verifier::external_body]
fn to_value(json: &Json) -> (r: serde_json::Value) {
    match json {
        Json::Null => serde_json::Value::Null,
        Json::Bool(b) => serde_json::Value::from(*b),
        Json::UInt(n) => serde_json::Value::from(*n),
        Json::Int(n) => serde_json::Value::from(*n),
        Json::Float(s) => serde_json::from_str(s).unwrap_or_default(),
        Json::Text(s) => serde_json::Value::from(s.as_str()),
        Json::Array(items) => items.iter().map(to_value).collect(),
        Json::Object(members) => members.iter().map(|m| (m.key.clone(), to_value(&m.value))).collect(),
    }
}

/// The value that a text spells, or why it spells none.
pub uninterp spec fn json_read(text: Seq<char>) -> Result<Doc, Seq<char>>;

/// The value that a text spells, as `serde_json::from_str` reads it, or what
/// its error displays as. What the value or the error is for a given text is
/// left to that function.
#[verifier::external_body]
pub(crate) fn read_json(text: &str) -> (r: Result<Json, String>)
    ensures
        match r {
            Ok(v) => json_read(text@) == Ok::<Doc, Seq<char>>(v@),
            Err(e) => json_read(text@) == Err::<Doc, Seq<char>>(e@),
        },
{
    serde_json::from_str(text).map(from_value).map_err(|e: serde_json::Error| e.to_string())
}

/// A value written for reading.
pub uninterp spec fn pretty_json(v: Doc) -> Seq<char>;

/// A value written for reading, by `serde_json::to_string_pretty`, which does
/// not fail on a value. What is written for a given value is left to that
/// function.
#[verifier::external_body]
pub(crate) fn pretty_print(v: &Json) -> (r: String)
    ensures
        r@ == pretty_json(v@),
{
    serde_json::to_string_pretty(&to_value(v)).unwrap_or_default()
}

/// A value written without white space.
pub uninterp spec fn compact_json(v: Doc) -> Seq<char>;

/// A value written without white space, by `serde_json::Value`'s `to_string`.
/// What is written for a given value is left to that function.
#[verifier::external_body]
pub(crate) fn write_compact(v: &Json) -> (r: String)
    ensures
        r@ == compact_json(v@),
{
    to_value(v).to_string()
}

/// An object with the given members.
pub proof fn lemma_object(members: Vec<Member>, model: Seq<(Seq<char>, Doc)>)
    requires
        members@.len() == model.len(),
        forall|i: int|
            0 <= i < model.len() ==> #[trigger] model[i] == (
                members@[i].key@,
                members@[i].value@,
            ),
    ensures
        Json::Object(members)@ == Doc::Object(model),
{
    lemma_member_docs(members@, members@.len() as int);
    assert(member_docs(members@, members@.len() as int) =~= model);
}

/// An array of the given items.
pub proof fn lemma_array(items: Vec<Json>, model: Seq<Doc>)
    requires
        items@.len() == model.len(),
        forall|i: int| 0 <= i < model.len() ==> #[trigger] model[i] == items@[i]@,
    ensures
        Json::Array(items)@ == Doc::Array(model),
{
    lemma_docs(items@, items@.len() as int);
    assert(docs(items@, items@.len() as int) =~= model);
}

} // verus!
