//! Tool schemas made fit for strict function calling.
//!
//! Three passes, in this order: a bare boolean that stands for a schema becomes
//! an object; at the root every property is required, and those that were
//! optional become nullable; and every object schema refuses further
//! properties.
use crate::json::{
    copy, copy_items, copy_members, docs, lemma_docs, lemma_docs_push, lemma_member_docs,
    lemma_member_docs_push, member_docs, Doc, Json, Member,
};
use crate::text::same;
use vstd::prelude::*;

verus! {

/// The member of a schema that says what type its values have.
pub const TYPE_KEY: &'static str = "type";

/// The member of an object schema that holds its properties' schemas.
pub const PROPERTIES_KEY: &'static str = "properties";

/// The member of an object schema that lists the properties it must have.
pub const REQUIRED_KEY: &'static str = "required";

/// The member of an array schema that holds its items' schema.
pub const ITEMS_KEY: &'static str = "items";

/// The member of an object schema that says what further properties it takes.
pub const ADDITIONAL_KEY: &'static str = "additionalProperties";

// ---------------------------------------------------------------------------
// Members
// ---------------------------------------------------------------------------

/// Members of an object by what they are.
pub type Members = Seq<(Seq<char>, Doc)>;

/// The value of the last member with a key.
pub open spec fn value_of(members: Members, key: Seq<char>) -> Option<Doc>
    decreases members.len(),
{
    if members.len() == 0 {
        None
    } else if members.last().0 == key {
        Some(members.last().1)
    } else {
        value_of(members.drop_last(), key)
    }
}

/// The members without those of a key.
pub open spec fn without(members: Members, key: Seq<char>) -> Members
    decreases members.len(),
{
    if members.len() == 0 {
        Seq::empty()
    } else if members.last().0 == key {
        without(members.drop_last(), key)
    } else {
        without(members.drop_last(), key).push(members.last())
    }
}

/// The members with one of a key set.
pub open spec fn with(members: Members, key: Seq<char>, value: Doc) -> Members {
    without(members, key).push((key, value))
}

/// The members of a `Vec` by what they are.
pub open spec fn members_of(members: Seq<Member>) -> Members {
    member_docs(members, members.len() as int)
}

/// Where the last member with a key stands.
fn find_last(members: &Vec<Member>, key: &str) -> (r: Option<usize>)
    ensures
        match r {
            Some(i) => i < members.len() && value_of(members_of(members@), key@) == Some(
                members@[i as int].value@,
            ),
            None => value_of(members_of(members@), key@) is None,
        },
{
    let ghost all = members_of(members@);
    proof {
        lemma_member_docs(members@, members@.len() as int);
        assert(all.take(all.len() as int) =~= all);
    }
    let mut left: usize = members.len();
    while left > 0
        invariant
            left <= members.len(),
            all == members_of(members@),
            all.len() == members.len(),
            forall|i: int|
                0 <= i < all.len() ==> #[trigger] all[i] == (members@[i].key@, members@[i].value@),
            value_of(all, key@) == value_of(all.take(left as int), key@),
        decreases left,
    {
        assert(all.take(left as int).drop_last() =~= all.take(left - 1));
        assert(all.take(left as int).last() == all[left - 1]);
        left = left - 1;
        if same(&members[left].key, key) {
            return Some(left);
        }
    }
    None
}

/// The members with one of a key set.
fn set_member(members: Vec<Member>, key: &str, value: Json) -> (r: Vec<Member>)
    ensures
        members_of(r@) == with(members_of(members@), key@, value@),
{
    let ghost all = members_of(members@);
    proof {
        lemma_member_docs(members@, members@.len() as int);
    }
    let mut r: Vec<Member> = Vec::new();
    for i in 0..members.len()
        invariant
            all == members_of(members@),
            all.len() == members.len(),
            forall|j: int|
                0 <= j < all.len() ==> #[trigger] all[j] == (members@[j].key@, members@[j].value@),
            members_of(r@) == without(all.take(i as int), key@),
    {
        proof {
            assert(all.take(i + 1).drop_last() =~= all.take(i as int));
            assert(all.take(i + 1).last() == all[i as int]);
        }
        if !same(&members[i].key, key) {
            let ghost before = r@;
            r.push(Member { key: members[i].key.clone(), value: copy(&members[i].value) });
            proof {
                lemma_member_docs_push(before, r@.last());
            }
        }
    }
    proof {
        assert(all.take(all.len() as int) =~= all);
    }
    let ghost before = r@;
    r.push(Member { key: key.to_owned(), value });
    proof {
        lemma_member_docs_push(before, r@.last());
    }
    r
}

/// A member that is set is what it was set to, and no other member changes.
pub proof fn lemma_with(members: Members, key: Seq<char>, value: Doc, other: Seq<char>)
    ensures
        value_of(with(members, key, value), other) == if other == key {
            Some(value)
        } else {
            value_of(members, other)
        },
    decreases members.len(),
{
    let all = with(members, key, value);
    assert(all.drop_last() =~= without(members, key));
    lemma_without(members, key, other);
}

proof fn lemma_without(members: Members, key: Seq<char>, other: Seq<char>)
    ensures
        other != key ==> value_of(without(members, key), other) == value_of(members, other),
    decreases members.len(),
{
    if members.len() > 0 {
        lemma_without(members.drop_last(), key, other);
        if members.last().0 != key {
            assert(without(members, key).drop_last() =~= without(members.drop_last(), key));
        }
    }
}

// ---------------------------------------------------------------------------
// Bare booleans
// ---------------------------------------------------------------------------

/// A schema that is no bare boolean: one that takes anything for `true`, one
/// that takes nothing for `false`.
pub open spec fn spelled_out(schema: Doc) -> Doc
    decreases schema, 1nat, 0int,
{
    match schema {
        Doc::Bool(true) => Doc::Object(Seq::empty()),
        Doc::Bool(false) => Doc::Object(seq![("not"@, Doc::Object(Seq::empty()))]),
        _ => without_bare_booleans(schema),
    }
}

/// The first `n` properties with their schemas spelled out.
pub open spec fn properties_spelled_out(properties: Members, n: int) -> Members
    decreases properties, 0nat, n,
{
    if n <= 0 || n > properties.len() {
        Seq::empty()
    } else {
        properties_spelled_out(properties, n - 1).push(
            (properties[n - 1].0, spelled_out(properties[n - 1].1)),
        )
    }
}

/// The first `n` items, each without bare booleans inside.
pub open spec fn items_without_bare_booleans(items: Seq<Doc>, n: int) -> Seq<Doc>
    decreases items, 0nat, n,
{
    if n <= 0 || n > items.len() {
        Seq::empty()
    } else {
        items_without_bare_booleans(items, n - 1).push(without_bare_booleans(items[n - 1]))
    }
}

/// The first `n` members, each without bare booleans where a schema stands.
pub open spec fn members_without_bare_booleans(members: Members, n: int) -> Members
    decreases members, 0nat, n,
{
    if n <= 0 || n > members.len() {
        Seq::empty()
    } else {
        let (key, value) = members[n - 1];
        let spelled = if key == ITEMS_KEY@ {
            spelled_out(value)
        } else {
            match value {
                Doc::Object(properties) => if key == PROPERTIES_KEY@ {
                    Doc::Object(properties_spelled_out(properties, properties.len() as int))
                } else {
                    without_bare_booleans(value)
                },
                _ => without_bare_booleans(value),
            }
        };
        members_without_bare_booleans(members, n - 1).push((key, spelled))
    }
}

/// A value in which no bare boolean stands for a schema.
pub open spec fn without_bare_booleans(value: Doc) -> Doc
    decreases value, 0nat, 0int,
{
    match value {
        Doc::Object(members) => Doc::Object(
            members_without_bare_booleans(members, members.len() as int),
        ),
        Doc::Array(items) => Doc::Array(items_without_bare_booleans(items, items.len() as int)),
        _ => value,
    }
}

// ---------------------------------------------------------------------------
// Required properties
// ---------------------------------------------------------------------------

/// Whether a list of names holds a name.
pub open spec fn lists(names: Option<Doc>, name: Seq<char>) -> bool {
    match names {
        Some(Doc::Array(items)) => exists|i: int|
            0 <= i < items.len() && #[trigger] items[i] == Doc::Text(name),
        _ => false,
    }
}

/// A schema whose values may be null as well.
pub open spec fn nullable(schema: Doc) -> Doc {
    match schema {
        Doc::Object(members) => match value_of(members, TYPE_KEY@) {
            Some(Doc::Text(t)) => if t == "null"@ {
                schema
            } else {
                Doc::Object(
                    with(
                        members,
                        TYPE_KEY@,
                        Doc::Array(seq![Doc::Text(t), Doc::Text("null"@)]),
                    ),
                )
            },
            Some(Doc::Array(types)) => if lists(Some(Doc::Array(types)), "null"@) {
                schema
            } else {
                Doc::Object(with(members, TYPE_KEY@, Doc::Array(types.push(Doc::Text("null"@)))))
            },
            _ => schema,
        },
        _ => schema,
    }
}

/// The properties, those that were optional nullable.
pub open spec fn optional_nullable(properties: Members, required: Option<Doc>) -> Members {
    Seq::new(
        properties.len(),
        |i: int|
            if lists(required, properties[i].0) {
                properties[i]
            } else {
                (properties[i].0, nullable(properties[i].1))
            },
    )
}

/// The names of the properties.
pub open spec fn names_of(properties: Members) -> Seq<Doc> {
    Seq::new(properties.len(), |i: int| Doc::Text(properties[i].0))
}

/// Whether every property is required.
pub open spec fn all_required(properties: Members, required: Option<Doc>) -> bool {
    forall|i: int| 0 <= i < properties.len() ==> lists(required, (#[trigger] properties[i]).0)
}

/// A root schema that requires every one of its properties.
pub open spec fn requiring_all(schema: Doc) -> Doc {
    match schema {
        Doc::Object(members) => match value_of(members, PROPERTIES_KEY@) {
            Some(Doc::Object(properties)) => {
                let required = value_of(members, REQUIRED_KEY@);
                if all_required(properties, required) {
                    schema
                } else {
                    Doc::Object(
                        with(
                            with(
                                members,
                                PROPERTIES_KEY@,
                                Doc::Object(optional_nullable(properties, required)),
                            ),
                            REQUIRED_KEY@,
                            Doc::Array(names_of(properties)),
                        ),
                    )
                }
            },
            _ => schema,
        },
        _ => schema,
    }
}

// ---------------------------------------------------------------------------
// Further properties
// ---------------------------------------------------------------------------

/// Whether members are those of an object schema.
pub open spec fn is_object_schema(members: Members) -> bool {
    value_of(members, TYPE_KEY@) == Some(Doc::Text("object"@)) || value_of(
        members,
        PROPERTIES_KEY@,
    ) is Some
}

/// The first `n` items, closed.
pub open spec fn closed_items(items: Seq<Doc>, n: int) -> Seq<Doc>
    decreases items, n,
{
    if n <= 0 || n > items.len() {
        Seq::empty()
    } else {
        closed_items(items, n - 1).push(closed(items[n - 1]))
    }
}

/// The first `n` members, closed.
pub open spec fn closed_members(members: Members, n: int) -> Members
    decreases members, n,
{
    if n <= 0 || n > members.len() {
        Seq::empty()
    } else {
        closed_members(members, n - 1).push((members[n - 1].0, closed(members[n - 1].1)))
    }
}

/// A value in which every object schema refuses further properties.
pub open spec fn closed(value: Doc) -> Doc
    decreases value,
{
    match value {
        Doc::Object(members) => {
            let inner = closed_members(members, members.len() as int);
            if is_object_schema(members) {
                Doc::Object(with(inner, ADDITIONAL_KEY@, Doc::Bool(false)))
            } else {
                Doc::Object(inner)
            }
        },
        Doc::Array(items) => Doc::Array(closed_items(items, items.len() as int)),
        _ => value,
    }
}

// ---------------------------------------------------------------------------
// The passes
// ---------------------------------------------------------------------------

/// Spells out a schema.
fn spell_out(schema: &Json) -> (r: Json)
    ensures
        r@ == spelled_out(schema@),
    decreases schema, 1nat,
{
    match schema {
        Json::Bool(b) => {
            let mut members: Vec<Member> = Vec::new();
            if !*b {
                let nothing: Vec<Member> = Vec::new();
                let ghost before = members@;
                members.push(Member { key: "not".to_owned(), value: Json::Object(nothing) });
                proof {
                    lemma_member_docs_push(before, members@.last());
                    assert(members_of(members@) =~= seq![("not"@, Doc::Object(Seq::empty()))]);
                }
            }
            Json::Object(members)
        },
        _ => normalize(schema),
    }
}

/// Spells out the schemas of properties.
fn spell_out_properties(properties: &Vec<Member>) -> (r: Vec<Member>)
    ensures
        members_of(r@) == properties_spelled_out(
            members_of(properties@),
            properties@.len() as int,
        ),
    decreases properties@, 0nat,
{
    let ghost all = members_of(properties@);
    proof {
        lemma_member_docs(properties@, properties@.len() as int);
    }
    let mut r: Vec<Member> = Vec::new();
    for i in 0..properties.len()
        invariant
            all == members_of(properties@),
            all.len() == properties.len(),
            forall|j: int|
                0 <= j < all.len() ==> #[trigger] all[j] == (
                    properties@[j].key@,
                    properties@[j].value@,
                ),
            members_of(r@) == properties_spelled_out(all, i as int),
    {
        assert(decreases_to!(properties@ => properties@[i as int]));
        let ghost before = r@;
        let value = spell_out(&properties[i].value);
        r.push(Member { key: properties[i].key.clone(), value });
        proof {
            lemma_member_docs_push(before, r@.last());
            assert(all[i as int].1 == properties@[i as int].value@);
        }
    }
    r
}

fn normalize_items(items: &Vec<Json>) -> (r: Vec<Json>)
    ensures
        docs(r@, r@.len() as int) == items_without_bare_booleans(
            docs(items@, items@.len() as int),
            items@.len() as int,
        ),
    decreases items@, 0nat,
{
    let ghost all = docs(items@, items@.len() as int);
    proof {
        lemma_docs(items@, items@.len() as int);
    }
    let mut r: Vec<Json> = Vec::new();
    for i in 0..items.len()
        invariant
            all.len() == items.len(),
            forall|j: int| 0 <= j < all.len() ==> #[trigger] all[j] == items@[j]@,
            docs(r@, r@.len() as int) == items_without_bare_booleans(all, i as int),
    {
        assert(decreases_to!(items@ => items@[i as int]));
        let ghost before = r@;
        r.push(normalize(&items[i]));
        proof {
            lemma_docs_push(before, r@.last());
            assert(all[i as int] == items@[i as int]@);
        }
    }
    r
}

fn normalize_member(member: &Member) -> (r: Json)
    ensures
        r@ == if member.key@ == ITEMS_KEY@ {
            spelled_out(member.value@)
        } else {
            match member.value@ {
                Doc::Object(properties) => if member.key@ == PROPERTIES_KEY@ {
                    Doc::Object(properties_spelled_out(properties, properties.len() as int))
                } else {
                    without_bare_booleans(member.value@)
                },
                _ => without_bare_booleans(member.value@),
            }
        },
    decreases member, 0nat,
{
    if same(&member.key, ITEMS_KEY) {
        spell_out(&member.value)
    } else {
        match &member.value {
            Json::Object(properties) => if same(&member.key, PROPERTIES_KEY) {
                proof {
                    lemma_member_docs(properties@, properties@.len() as int);
                }
                Json::Object(spell_out_properties(properties))
            } else {
                normalize(&member.value)
            },
            _ => normalize(&member.value),
        }
    }
}

fn normalize_members(members: &Vec<Member>) -> (r: Vec<Member>)
    ensures
        members_of(r@) == members_without_bare_booleans(
            members_of(members@),
            members@.len() as int,
        ),
    decreases members@, 0nat,
{
    let ghost all = members_of(members@);
    proof {
        lemma_member_docs(members@, members@.len() as int);
    }
    let mut r: Vec<Member> = Vec::new();
    for i in 0..members.len()
        invariant
            all == members_of(members@),
            all.len() == members.len(),
            forall|j: int|
                0 <= j < all.len() ==> #[trigger] all[j] == (members@[j].key@, members@[j].value@),
            members_of(r@) == members_without_bare_booleans(all, i as int),
    {
        assert(decreases_to!(members@ => members@[i as int]));
        let ghost before = r@;
        let value = normalize_member(&members[i]);
        r.push(Member { key: members[i].key.clone(), value });
        proof {
            lemma_member_docs_push(before, r@.last());
            assert(all[i as int] == (members@[i as int].key@, members@[i as int].value@));
        }
    }
    r
}

fn normalize(value: &Json) -> (r: Json)
    ensures
        r@ == without_bare_booleans(value@),
    decreases value, 0nat,
{
    match value {
        Json::Object(members) => {
            proof {
                lemma_member_docs(members@, members@.len() as int);
            }
            Json::Object(normalize_members(members))
        },
        Json::Array(items) => {
            proof {
                lemma_docs(items@, items@.len() as int);
            }
            Json::Array(normalize_items(items))
        },
        _ => copy(value),
    }
}

/// Spells out every bare boolean that stands for a schema.
pub fn normalize_bare_boolean_schemas(schema: &Json) -> (r: Json)
    ensures
        r@ == without_bare_booleans(schema@),
{
    normalize(schema)
}

/// Whether a list of names holds a name.
fn is_listed(names: Option<&Json>, name: &str) -> (r: bool)
    ensures
        r == lists(
            match names {
                Some(v) => Some(v@),
                None => None,
            },
            name@,
        ),
{
    match names {
        Some(Json::Array(items)) => {
            proof {
                lemma_docs(items@, items@.len() as int);
            }
            let ghost all = docs(items@, items@.len() as int);
            for i in 0..items.len()
                invariant
                    names is Some && names->0@ == Doc::Array(all),
                    all.len() == items.len(),
                    forall|j: int| 0 <= j < all.len() ==> #[trigger] all[j] == items@[j]@,
                    forall|j: int| 0 <= j < i ==> #[trigger] all[j] != Doc::Text(name@),
            {
                match &items[i] {
                    Json::Text(t) => if same(t, name) {
                        assert(all[i as int] == items@[i as int]@);
                        return true;
                    },
                    _ => (),
                }
                assert(all[i as int] == items@[i as int]@);
            }
            false
        },
        _ => false,
    }
}

/// The member of a `Vec` with a key, by the last that has it.
fn member_value<'a>(members: &'a Vec<Member>, key: &str) -> (r: Option<&'a Json>)
    ensures
        match r {
            Some(v) => value_of(members_of(members@), key@) == Some(v@),
            None => value_of(members_of(members@), key@) is None,
        },
{
    match find_last(members, key) {
        Some(i) => Some(&members[i].value),
        None => None,
    }
}

fn text_items(first: &str, second: &str) -> (r: Vec<Json>)
    ensures
        docs(r@, r@.len() as int) == seq![Doc::Text(first@), Doc::Text(second@)],
{
    let mut r: Vec<Json> = Vec::new();
    let ghost zero = r@;
    r.push(Json::Text(first.to_owned()));
    proof {
        lemma_docs_push(zero, r@.last());
    }
    let ghost one = r@;
    r.push(Json::Text(second.to_owned()));
    proof {
        lemma_docs_push(one, r@.last());
        assert(docs(r@, r@.len() as int) =~= seq![Doc::Text(first@), Doc::Text(second@)]);
    }
    r
}

fn make_nullable(schema: &Json) -> (r: Json)
    ensures
        r@ == nullable(schema@),
{
    match schema {
        Json::Object(members) => match member_value(members, TYPE_KEY) {
            Some(Json::Text(t)) => if same(t, "null") {
                copy(schema)
            } else {
                let types = Json::Array(text_items(t, "null"));
                Json::Object(set_member(copy_members(members), TYPE_KEY, types))
            },
            Some(Json::Array(types)) => if is_listed(member_value(members, TYPE_KEY), "null") {
                copy(schema)
            } else {
                let mut extended = copy_items(types);
                let ghost before = extended@;
                extended.push(Json::Text("null".to_owned()));
                proof {
                    lemma_docs_push(before, extended@.last());
                }
                Json::Object(set_member(copy_members(members), TYPE_KEY, Json::Array(extended)))
            },
            _ => copy(schema),
        },
        _ => copy(schema),
    }
}

fn make_optional_nullable(properties: &Vec<Member>, required: Option<&Json>) -> (r: Vec<Member>)
    ensures
        members_of(r@) == optional_nullable(
            members_of(properties@),
            match required {
                Some(v) => Some(v@),
                None => None,
            },
        ),
{
    let ghost all = members_of(properties@);
    let ghost names = match required {
        Some(v) => Some(v@),
        None => None,
    };
    proof {
        lemma_member_docs(properties@, properties@.len() as int);
        assert(optional_nullable(all, names).take(0) =~= Seq::empty());
    }
    let mut r: Vec<Member> = Vec::new();
    for i in 0..properties.len()
        invariant
            all == members_of(properties@),
            all.len() == properties.len(),
            names == match required {
                Some(v) => Some(v@),
                None => None,
            },
            forall|j: int|
                0 <= j < all.len() ==> #[trigger] all[j] == (
                    properties@[j].key@,
                    properties@[j].value@,
                ),
            members_of(r@) == optional_nullable(all, names).take(i as int),
    {
        let ghost before = r@;
        let value = if is_listed(required, &properties[i].key) {
            copy(&properties[i].value)
        } else {
            make_nullable(&properties[i].value)
        };
        r.push(Member { key: properties[i].key.clone(), value });
        proof {
            lemma_member_docs_push(before, r@.last());
            assert(all[i as int] == (properties@[i as int].key@, properties@[i as int].value@));
            assert(optional_nullable(all, names).take(i + 1) =~= optional_nullable(
                all,
                names,
            ).take(i as int).push(optional_nullable(all, names)[i as int]));
        }
    }
    assert(optional_nullable(all, names).take(all.len() as int) =~= optional_nullable(all, names));
    r
}

fn property_names(properties: &Vec<Member>) -> (r: Vec<Json>)
    ensures
        docs(r@, r@.len() as int) == names_of(members_of(properties@)),
{
    let ghost all = members_of(properties@);
    proof {
        lemma_member_docs(properties@, properties@.len() as int);
        assert(names_of(all).take(0) =~= Seq::empty());
    }
    let mut r: Vec<Json> = Vec::new();
    for i in 0..properties.len()
        invariant
            all.len() == properties.len(),
            forall|j: int|
                0 <= j < all.len() ==> #[trigger] all[j] == (
                    properties@[j].key@,
                    properties@[j].value@,
                ),
            docs(r@, r@.len() as int) == names_of(all).take(i as int),
    {
        let ghost before = r@;
        r.push(Json::Text(properties[i].key.clone()));
        proof {
            lemma_docs_push(before, r@.last());
            assert(all[i as int].0 == properties@[i as int].key@);
            assert(names_of(all).take(i + 1) =~= names_of(all).take(i as int).push(
                names_of(all)[i as int],
            ));
        }
    }
    assert(names_of(all).take(all.len() as int) =~= names_of(all));
    r
}

fn are_all_required(properties: &Vec<Member>, required: Option<&Json>) -> (r: bool)
    ensures
        r == all_required(
            members_of(properties@),
            match required {
                Some(v) => Some(v@),
                None => None,
            },
        ),
{
    let ghost all = members_of(properties@);
    let ghost names = match required {
        Some(v) => Some(v@),
        None => None,
    };
    proof {
        lemma_member_docs(properties@, properties@.len() as int);
    }
    for i in 0..properties.len()
        invariant
            all == members_of(properties@),
            all.len() == properties.len(),
            names == match required {
                Some(v) => Some(v@),
                None => None,
            },
            forall|j: int|
                0 <= j < all.len() ==> #[trigger] all[j] == (
                    properties@[j].key@,
                    properties@[j].value@,
                ),
            forall|j: int| 0 <= j < i ==> lists(names, (#[trigger] all[j]).0),
    {
        assert(all[i as int] == (properties@[i as int].key@, properties@[i as int].value@));
        if !is_listed(required, &properties[i].key) {
            assert(!lists(names, all[i as int].0));
            return false;
        }
    }
    true
}

/// Makes the root require every one of its properties.
pub fn fix_empty_root_required(schema: &Json) -> (r: Json)
    ensures
        r@ == requiring_all(schema@),
{
    match schema {
        Json::Object(members) => match member_value(members, PROPERTIES_KEY) {
            Some(Json::Object(properties)) => {
                let required = member_value(members, REQUIRED_KEY);
                if are_all_required(properties, required) {
                    copy(schema)
                } else {
                    let nullable = Json::Object(make_optional_nullable(properties, required));
                    let names = Json::Array(property_names(properties));
                    let kept = set_member(copy_members(members), PROPERTIES_KEY, nullable);
                    Json::Object(set_member(kept, REQUIRED_KEY, names))
                }
            },
            _ => copy(schema),
        },
        _ => copy(schema),
    }
}

fn close_items(items: &Vec<Json>) -> (r: Vec<Json>)
    ensures
        docs(r@, r@.len() as int) == closed_items(
            docs(items@, items@.len() as int),
            items@.len() as int,
        ),
    decreases items@,
{
    let ghost all = docs(items@, items@.len() as int);
    proof {
        lemma_docs(items@, items@.len() as int);
    }
    let mut r: Vec<Json> = Vec::new();
    for i in 0..items.len()
        invariant
            all.len() == items.len(),
            forall|j: int| 0 <= j < all.len() ==> #[trigger] all[j] == items@[j]@,
            docs(r@, r@.len() as int) == closed_items(all, i as int),
    {
        assert(decreases_to!(items@ => items@[i as int]));
        let ghost before = r@;
        r.push(recursive_set_additional_properties_false(&items[i]));
        proof {
            lemma_docs_push(before, r@.last());
            assert(all[i as int] == items@[i as int]@);
        }
    }
    r
}

fn close_members(members: &Vec<Member>) -> (r: Vec<Member>)
    ensures
        members_of(r@) == closed_members(members_of(members@), members@.len() as int),
    decreases members@,
{
    let ghost all = members_of(members@);
    proof {
        lemma_member_docs(members@, members@.len() as int);
    }
    let mut r: Vec<Member> = Vec::new();
    for i in 0..members.len()
        invariant
            all == members_of(members@),
            all.len() == members.len(),
            forall|j: int|
                0 <= j < all.len() ==> #[trigger] all[j] == (members@[j].key@, members@[j].value@),
            members_of(r@) == closed_members(all, i as int),
    {
        assert(decreases_to!(members@ => members@[i as int]));
        let ghost before = r@;
        let value = recursive_set_additional_properties_false(&members[i].value);
        r.push(Member { key: members[i].key.clone(), value });
        proof {
            lemma_member_docs_push(before, r@.last());
            assert(all[i as int] == (members@[i as int].key@, members@[i as int].value@));
        }
    }
    r
}

/// Makes every object schema refuse further properties.
pub fn recursive_set_additional_properties_false(schema: &Json) -> (r: Json)
    ensures
        r@ == closed(schema@),
    decreases schema,
{
    match schema {
        Json::Object(members) => {
            proof {
                lemma_member_docs(members@, members@.len() as int);
            }
            let inner = close_members(members);
            let is_object = match member_value(members, TYPE_KEY) {
                Some(Json::Text(t)) => same(t, "object"),
                _ => false,
            };
            if is_object || find_last(members, PROPERTIES_KEY).is_some() {
                Json::Object(set_member(inner, ADDITIONAL_KEY, Json::Bool(false)))
            } else {
                Json::Object(inner)
            }
        },
        Json::Array(items) => {
            proof {
                lemma_docs(items@, items@.len() as int);
            }
            Json::Array(close_items(items))
        },
        _ => copy(schema),
    }
}

// ---------------------------------------------------------------------------
// The schema of a tool
// ---------------------------------------------------------------------------

/// The type that a schema names where that is not `object`; such a schema is
/// none of a tool.
pub open spec fn foreign_type(schema: Doc) -> Option<Seq<char>> {
    match schema {
        Doc::Object(members) => match value_of(members, TYPE_KEY@) {
            Some(Doc::Text(t)) => if t == "object"@ {
                None
            } else {
                Some(t)
            },
            _ => None,
        },
        _ => None,
    }
}

/// The reason for refusing a schema of another type.
pub open spec fn refusal(named: Seq<char>) -> Seq<char> {
    "Invalid MCP tool schema: root must be type 'object', got '"@ + named
        + "'. This is an MCP server bug - the server is returning a type definition as a tool."@
}

/// A schema after the three passes.
pub open spec fn sanitized(schema: Doc) -> Doc {
    closed(requiring_all(without_bare_booleans(schema)))
}

/// Makes a tool's schema fit for strict function calling, or says why it is
/// none of a tool.
pub fn sanitize_schema_for_openai(schema: &Json) -> (r: Result<Json, String>)
    ensures
        match r {
            Ok(s) => foreign_type(schema@) is None && s@ == sanitized(schema@),
            Err(reason) => foreign_type(schema@) matches Some(t) && reason@ == refusal(t),
        },
{
    match schema {
        Json::Object(members) => match member_value(members, TYPE_KEY) {
            Some(Json::Text(t)) => if !same(t, "object") {
                let mut reason =
                    "Invalid MCP tool schema: root must be type 'object', got '".to_owned();
                reason.append(t);
                reason.append(
                    "'. This is an MCP server bug - the server is returning a type definition as a tool.",
                );
                return Err(reason);
            },
            _ => (),
        },
        _ => (),
    }
    let spelled = normalize_bare_boolean_schemas(schema);
    let required = fix_empty_root_required(&spelled);
    Ok(recursive_set_additional_properties_false(&required))
}

/// Whether every object schema within a value, the value itself included,
/// refuses further properties.
pub open spec fn is_strict(value: Doc) -> bool
    decreases value,
{
    match value {
        Doc::Object(members) => {
            &&& is_object_schema(members) ==> value_of(members, ADDITIONAL_KEY@) == Some(
                Doc::Bool(false),
            )
            &&& forall|i: int| 0 <= i < members.len() ==> is_strict((#[trigger] members[i]).1)
        },
        Doc::Array(items) => forall|i: int| 0 <= i < items.len() ==> is_strict(#[trigger] items[i]),
        _ => true,
    }
}

proof fn lemma_closed_items(items: Seq<Doc>, n: int)
    requires
        0 <= n <= items.len(),
    ensures
        closed_items(items, n).len() == n,
        forall|i: int| 0 <= i < n ==> is_strict(#[trigger] closed_items(items, n)[i]),
    decreases items, n,
{
    if n > 0 {
        lemma_closed_items(items, n - 1);
        assert(decreases_to!(items => items[n - 1]));
        law_closed_is_strict(items[n - 1]);
    }
}

/// Closing keeps the keys, and closes the value of each.
pub proof fn lemma_closed_members(members: Members, n: int)
    requires
        0 <= n <= members.len(),
    ensures
        closed_members(members, n).len() == n,
        forall|i: int|
            0 <= i < n ==> (#[trigger] closed_members(members, n)[i]).0 == members[i].0
                && is_strict(closed_members(members, n)[i].1),
        forall|key: Seq<char>|
            (#[trigger] value_of(closed_members(members, n), key)) == match value_of(
                members.take(n),
                key,
            ) {
                Some(v) => Some(closed(v)),
                None => None,
            },
    decreases members, n,
{
    if n > 0 {
        lemma_closed_members(members, n - 1);
        assert(decreases_to!(members => members[n - 1]));
        law_closed_is_strict(members[n - 1].1);
        assert(members.take(n).drop_last() =~= members.take(n - 1));
        assert(closed_members(members, n).drop_last() =~= closed_members(members, n - 1));
        assert forall|key: Seq<char>|
            (#[trigger] value_of(closed_members(members, n), key)) == match value_of(
                members.take(n),
                key,
            ) {
                Some(v) => Some(closed(v)),
                None => None,
            } by {
            let before = value_of(closed_members(members, n - 1), key);
            assert(members.take(n).last() == members[n - 1]);
        }
    }
}

proof fn lemma_without_members(members: Members, key: Seq<char>)
    ensures
        forall|i: int|
            0 <= i < without(members, key).len() ==> members.contains(
                #[trigger] without(members, key)[i],
            ),
    decreases members.len(),
{
    if members.len() > 0 {
        let before = members.drop_last();
        lemma_without_members(before, key);
        assert forall|i: int| 0 <= i < without(members, key).len() implies members.contains(
            #[trigger] without(members, key)[i],
        ) by {
            if i < without(before, key).len() {
                let m = without(before, key)[i];
                assert(before.contains(m));
                let k = choose|k: int| 0 <= k < before.len() && before[k] == m;
                assert(members[k] == m);
            } else {
                assert(members[members.len() - 1] == members.last());
            }
        }
    }
}

/// After the last pass every object schema refuses further properties.
pub proof fn law_closed_is_strict(value: Doc)
    ensures
        is_strict(closed(value)),
    decreases value,
{
    match value {
        Doc::Object(members) => {
            let inner = closed_members(members, members.len() as int);
            lemma_closed_members(members, members.len() as int);
            assert(members.take(members.len() as int) =~= members);
            if is_object_schema(members) {
                let all = with(inner, ADDITIONAL_KEY@, Doc::Bool(false));
                lemma_with(inner, ADDITIONAL_KEY@, Doc::Bool(false), ADDITIONAL_KEY@);
                lemma_without_members(inner, ADDITIONAL_KEY@);
                assert forall|i: int| 0 <= i < all.len() implies is_strict(
                    (#[trigger] all[i]).1,
                ) by {
                    if i < all.len() - 1 {
                        let m = without(inner, ADDITIONAL_KEY@)[i];
                        assert(inner.contains(m));
                    }
                }
            } else {
                assert(!is_object_schema(inner));
            }
        },
        Doc::Array(items) => {
            lemma_closed_items(items, items.len() as int);
        },
        _ => {},
    }
}

/// What sanitizing makes of a schema is strict throughout.
pub proof fn law_sanitized_is_strict(schema: Doc)
    ensures
        is_strict(sanitized(schema)),
{
    law_closed_is_strict(requiring_all(without_bare_booleans(schema)));
}

} // verus!
