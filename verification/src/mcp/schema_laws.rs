//! What sanitizing a tool's schema is for: a strict schema whose values mean
//! what those of the given one meant, where null stands for a property that
//! may be left out.
use super::schema_sanitize::{
    all_required, closed, closed_items, closed_members, foreign_type, is_strict,
    items_without_bare_booleans, law_sanitized_is_strict, lemma_closed_members, lemma_with, lists,
    members_without_bare_booleans, names_of, nullable, optional_nullable, properties_spelled_out,
    refusal, requiring_all, sanitized, spelled_out, value_of, with, without_bare_booleans, Members,
    ADDITIONAL_KEY, PROPERTIES_KEY, REQUIRED_KEY, TYPE_KEY,
};
use crate::json::Doc;
use crate::text::parts::lemma_holds;
use crate::text::search::contains_text;
use vstd::prelude::*;

verus! {

/// The value of a key is that of the last member with the key; there is none
/// exactly where no member has the key.
pub proof fn law_value_is_that_of_the_last_member(members: Members, key: Seq<char>)
    ensures
        match value_of(members, key) {
            Some(v) => exists|i: int|
                0 <= i < members.len() && #[trigger] members[i] == (key, v) && forall|j: int|
                    i < j < members.len() ==> (#[trigger] members[j]).0 != key,
            None => forall|i: int| 0 <= i < members.len() ==> (#[trigger] members[i]).0 != key,
        },
    decreases members.len(),
{
    if members.len() > 0 && members.last().0 != key {
        let before = members.drop_last();
        law_value_is_that_of_the_last_member(before, key);
        assert forall|i: int| 0 <= i < before.len() implies #[trigger] members[i] == before[i] by {}
        match value_of(before, key) {
            Some(v) => {
                let i = choose|i: int|
                    0 <= i < before.len() && #[trigger] before[i] == (key, v) && forall|j: int|
                        i < j < before.len() ==> (#[trigger] before[j]).0 != key;
                assert(members[i] == (key, v));
                assert forall|j: int| i < j < members.len() implies (#[trigger] members[j]).0
                    != key by {
                    if j < before.len() {
                        assert(before[j].0 != key);
                    }
                }
            },
            None => {
                assert forall|i: int| 0 <= i < members.len() implies (#[trigger] members[i]).0
                    != key by {
                    if i < before.len() {
                        assert(before[i].0 != key);
                    }
                }
            },
        }
    } else if members.len() > 0 {
        assert(members[members.len() - 1] == (key, members.last().1));
    }
}

/// Whether a value is a list that has a name in it.
pub open spec fn listed(names: Option<Doc>, name: Seq<char>) -> bool {
    names matches Some(Doc::Array(items)) && items.contains(Doc::Text(name))
}

/// What a schema says of the type of its values.
pub open spec fn type_of(schema: Doc) -> Option<Doc> {
    match schema {
        Doc::Object(members) => value_of(members, "type"@),
        _ => None,
    }
}

/// Whether a schema that says of what type its values are takes values of a
/// type.
pub open spec fn accepts(schema: Doc, t: Seq<char>) -> bool {
    type_of(schema) == Some(Doc::Text(t)) || listed(type_of(schema), t)
}

/// Whether a schema says of what type its values are, with one name or a list
/// of them.
pub open spec fn is_typed(schema: Doc) -> bool {
    type_of(schema) is Some && (type_of(schema)->0 is Text || type_of(schema)->0 is Array)
}

proof fn lemma_lists(names: Option<Doc>, name: Seq<char>)
    ensures
        lists(names, name) == listed(names, name),
{
    match names {
        Some(Doc::Array(items)) => {
            if items.contains(Doc::Text(name)) {
                let i = choose|i: int| 0 <= i < items.len() && items[i] == Doc::Text(name);
                assert(items[i] == Doc::Text(name));
            }
        },
        _ => {},
    }
}

proof fn lemma_items(items: Seq<Doc>, n: int)
    requires
        0 <= n <= items.len(),
    ensures
        items_without_bare_booleans(items, n).len() == n,
        forall|i: int|
            0 <= i < n ==> #[trigger] items_without_bare_booleans(items, n)[i]
                == without_bare_booleans(items[i]),
    decreases n,
{
    if n > 0 {
        lemma_items(items, n - 1);
    }
}

proof fn lemma_closed_each(items: Seq<Doc>, n: int)
    requires
        0 <= n <= items.len(),
    ensures
        closed_items(items, n).len() == n,
        forall|i: int| 0 <= i < n ==> #[trigger] closed_items(items, n)[i] == closed(items[i]),
    decreases n,
{
    if n > 0 {
        lemma_closed_each(items, n - 1);
    }
}

/// The names in a list stay, and no others come.
proof fn lemma_list_stays(names: Option<Doc>, name: Seq<char>)
    ensures
        names matches Some(v) ==> {
            &&& listed(Some(without_bare_booleans(v)), name) == listed(names, name)
            &&& listed(Some(closed(v)), name) == listed(names, name)
        },
{
    match names {
        Some(Doc::Array(items)) => {
            let n = items.len() as int;
            lemma_items(items, n);
            lemma_closed_each(items, n);
            let (a, b) = (items_without_bare_booleans(items, n), closed_items(items, n));
            if items.contains(Doc::Text(name)) {
                let i = choose|i: int| 0 <= i < n && items[i] == Doc::Text(name);
                assert(a[i] == Doc::Text(name));
                assert(b[i] == Doc::Text(name));
            }
            if a.contains(Doc::Text(name)) {
                let i = choose|i: int| 0 <= i < n && a[i] == Doc::Text(name);
                assert(without_bare_booleans(items[i]) == Doc::Text(name));
                assert(items[i] == Doc::Text(name));
            }
            if b.contains(Doc::Text(name)) {
                let i = choose|i: int| 0 <= i < n && b[i] == Doc::Text(name);
                assert(closed(items[i]) == Doc::Text(name));
                assert(items[i] == Doc::Text(name));
            }
        },
        _ => {},
    }
}

/// What becomes of a member's value in the first pass.
spec fn spelled_member(key: Seq<char>, value: Doc) -> Doc {
    if key == "items"@ {
        spelled_out(value)
    } else {
        match value {
            Doc::Object(properties) => if key == "properties"@ {
                Doc::Object(properties_spelled_out(properties, properties.len() as int))
            } else {
                without_bare_booleans(value)
            },
            _ => without_bare_booleans(value),
        }
    }
}

proof fn lemma_spelled_members(members: Members, n: int, key: Seq<char>)
    requires
        0 <= n <= members.len(),
    ensures
        value_of(members_without_bare_booleans(members, n), key) == match value_of(
            members.take(n),
            key,
        ) {
            Some(v) => Some(spelled_member(key, v)),
            None => None,
        },
    decreases n,
{
    if n > 0 {
        lemma_spelled_members(members, n - 1, key);
        let all = members_without_bare_booleans(members, n);
        assert(all.drop_last() =~= members_without_bare_booleans(members, n - 1));
        assert(members.take(n).drop_last() =~= members.take(n - 1));
        assert(members.take(n).last() == members[n - 1]);
    }
}

proof fn lemma_spelled_properties(properties: Members, n: int, key: Seq<char>)
    requires
        0 <= n <= properties.len(),
    ensures
        value_of(properties_spelled_out(properties, n), key) == match value_of(
            properties.take(n),
            key,
        ) {
            Some(v) => Some(spelled_out(v)),
            None => None,
        },
    decreases n,
{
    if n > 0 {
        lemma_spelled_properties(properties, n - 1, key);
        let all = properties_spelled_out(properties, n);
        assert(all.drop_last() =~= properties_spelled_out(properties, n - 1));
        assert(properties.take(n).drop_last() =~= properties.take(n - 1));
        assert(properties.take(n).last() == properties[n - 1]);
    }
}

proof fn lemma_optional(properties: Members, required: Option<Doc>, key: Seq<char>)
    ensures
        value_of(optional_nullable(properties, required), key) == match value_of(properties, key) {
            Some(v) => Some(
                if listed(required, key) {
                    v
                } else {
                    nullable(v)
                },
            ),
            None => None,
        },
    decreases properties.len(),
{
    lemma_lists(required, key);
    if properties.len() > 0 {
        lemma_optional(properties.drop_last(), required, key);
        assert(optional_nullable(properties, required).drop_last() =~= optional_nullable(
            properties.drop_last(),
            required,
        ));
    }
}

/// The value of a key in a closed object, other than the one that says what
/// further properties it takes.
proof fn lemma_closed_value(members: Members, key: Seq<char>)
    ensures
        closed(Doc::Object(members)) matches Doc::Object(all) && (key != "additionalProperties"@
            || (value_of(members, "properties"@) is None && value_of(members, "type"@) != Some(
            Doc::Text("object"@),
        )) ==> value_of(all, key) == match value_of(members, key) {
            Some(v) => Some(closed(v)),
            None => None,
        }),
{
    let n = members.len() as int;
    lemma_closed_members(members, n);
    assert(members.take(n) =~= members);
    let inner = closed_members(members, n);
    lemma_with(inner, ADDITIONAL_KEY@, Doc::Bool(false), key);
    assert(value_of(inner, key) == match value_of(members, key) {
        Some(v) => Some(closed(v)),
        None => None,
    });
}

/// A schema after the first pass says the same of its values' type.
proof fn lemma_type_after_spelling(p: Doc)
    ensures
        type_of(spelled_out(p)) == match type_of(p) {
            Some(t) => Some(without_bare_booleans(t)),
            None => None,
        },
{
    reveal_strlit("type");
    reveal_strlit("items");
    reveal_strlit("properties");
    match p {
        Doc::Object(members) => {
            lemma_spelled_members(members, members.len() as int, "type"@);
            assert(members.take(members.len() as int) =~= members);
            assert("type"@.len() != "items"@.len());
            assert("type"@.len() != "properties"@.len());
        },
        Doc::Bool(true) => {
            assert(value_of(Seq::<(Seq<char>, Doc)>::empty(), "type"@) is None);
        },
        Doc::Bool(false) => {
            reveal_strlit("not");
            let m: Members = seq![("not"@, Doc::Object(Seq::empty()))];
            assert(m.drop_last() =~= Seq::empty());
            assert("not"@.len() != "type"@.len());
            assert(value_of(m, "type"@) is None);
        },
        _ => {},
    }
}

proof fn lemma_type_after_closing(p: Doc)
    ensures
        type_of(closed(p)) == match type_of(p) {
            Some(t) => Some(closed(t)),
            None => None,
        },
{
    reveal_strlit("type");
    reveal_strlit("additionalProperties");
    assert("type"@.len() != "additionalProperties"@.len());
    match p {
        Doc::Object(members) => {
            lemma_closed_value(members, "type"@);
        },
        _ => {},
    }
}

/// What a schema accepts survives the first and the last pass.
proof fn lemma_accepts_stays(p: Doc, t: Seq<char>)
    ensures
        accepts(spelled_out(p), t) == accepts(p, t),
        accepts(closed(p), t) == accepts(p, t),
        is_typed(p) ==> is_typed(spelled_out(p)),
{
    lemma_type_after_spelling(p);
    lemma_type_after_closing(p);
    lemma_list_stays(type_of(p), t);
    match type_of(p) {
        Some(d) => {
            assert((without_bare_booleans(d) == Doc::Text(t)) == (d == Doc::Text(t)));
            assert((closed(d) == Doc::Text(t)) == (d == Doc::Text(t)));
        },
        None => {},
    }
}

/// A schema made nullable accepts null, and beside it what it accepted.
proof fn lemma_accepts_null(p: Doc, t: Seq<char>)
    ensures
        is_typed(p) ==> accepts(nullable(p), "null"@),
        t != "null"@ ==> accepts(nullable(p), t) == accepts(p, t),
{
    match p {
        Doc::Object(members) => match value_of(members, TYPE_KEY@) {
            Some(Doc::Text(s)) => {
                let both = seq![Doc::Text(s), Doc::Text("null"@)];
                lemma_with(members, TYPE_KEY@, Doc::Array(both), TYPE_KEY@);
                assert(both[0] == Doc::Text(s));
                assert(both[1] == Doc::Text("null"@));
                assert(both.contains(Doc::Text("null"@)));
                assert(both.contains(Doc::Text(t)) ==> t == s || t == "null"@);
                assert(t == s ==> both.contains(Doc::Text(t)));
            },
            Some(Doc::Array(types)) => {
                let more = types.push(Doc::Text("null"@));
                lemma_with(members, TYPE_KEY@, Doc::Array(more), TYPE_KEY@);
                lemma_lists(Some(Doc::Array(types)), "null"@);
                assert(more[types.len() as int] == Doc::Text("null"@));
                assert(more.contains(Doc::Text("null"@)));
                if types.contains(Doc::Text(t)) {
                    let i = choose|i: int| 0 <= i < types.len() && types[i] == Doc::Text(t);
                    assert(more[i] == Doc::Text(t));
                }
                if more.contains(Doc::Text(t)) && t != "null"@ {
                    let i = choose|i: int| 0 <= i < more.len() && more[i] == Doc::Text(t);
                    assert(types[i] == Doc::Text(t));
                }
            },
            _ => {},
        },
        _ => {},
    }
}

/// What the whole of sanitizing makes of a property's schema.
spec fn sanitized_property(p: Doc, required: bool) -> Doc {
    closed(
        if required {
            spelled_out(p)
        } else {
            nullable(spelled_out(p))
        },
    )
}

/// The root of a sanitized object schema: its properties, and what it
/// requires.
proof fn lemma_sanitized_root(members: Members, properties: Members) -> (out: (Members, Members))
    requires
        value_of(members, "properties"@) == Some(Doc::Object(properties)),
    ensures
        sanitized(Doc::Object(members)) == Doc::Object(out.0),
        value_of(out.0, "properties"@) == Some(Doc::Object(out.1)),
        forall|name: Seq<char>|
            (name != "additionalProperties"@ || (value_of(properties, "properties"@) is None
                && value_of(properties, "type"@) != Some(Doc::Text("object"@)))) ==> (
            #[trigger] value_of(out.1, name)) == match value_of(properties, name) {
                Some(p) => Some(
                    sanitized_property(p, listed(value_of(members, "required"@), name)),
                ),
                None => None,
            },
        forall|name: Seq<char>|
            (#[trigger] value_of(properties, name)) is Some ==> listed(
                value_of(out.0, "required"@),
                name,
            ),
        forall|name: Seq<char>| #[trigger]
            listed(value_of(out.0, "required"@), name) ==> value_of(properties, name) is Some
                || listed(value_of(members, "required"@), name),
{
    reveal_strlit("properties");
    reveal_strlit("required");
    reveal_strlit("items");
    reveal_strlit("type");
    reveal_strlit("additionalProperties");
    let keys = ("properties"@, "required"@, "additionalProperties"@);
    assert(keys.0.len() == 10 && keys.1.len() == 8 && keys.2.len() == 20);
    let n = members.len() as int;
    let first = members_without_bare_booleans(members, n);
    assert(members.take(n) =~= members);
    lemma_spelled_members(members, n, "properties"@);
    lemma_spelled_members(members, n, "required"@);
    let spelled = properties_spelled_out(properties, properties.len() as int);
    assert(properties.take(properties.len() as int) =~= properties);
    assert(value_of(first, "properties"@) == Some(Doc::Object(spelled)));
    let given = value_of(members, "required"@);
    let required = value_of(first, "required"@);
    assert forall|name: Seq<char>| #[trigger] lists(required, name) == listed(given, name) by {
        lemma_lists(required, name);
        lemma_list_stays(given, name);
    }
    let optional = optional_nullable(spelled, required);
    let second = if all_required(spelled, required) {
        first
    } else {
        with(
            with(first, PROPERTIES_KEY@, Doc::Object(optional)),
            REQUIRED_KEY@,
            Doc::Array(names_of(spelled)),
        )
    };
    assert(requiring_all(Doc::Object(first)) == Doc::Object(second));
    let middle = with(first, PROPERTIES_KEY@, Doc::Object(optional));
    lemma_with(first, PROPERTIES_KEY@, Doc::Object(optional), "properties"@);
    lemma_with(middle, REQUIRED_KEY@, Doc::Array(names_of(spelled)), "properties"@);
    lemma_with(middle, REQUIRED_KEY@, Doc::Array(names_of(spelled)), "required"@);
    let all = all_required(spelled, required);
    let properties_now = if all {
        spelled
    } else {
        optional
    };
    assert(value_of(second, "properties"@) == Some(Doc::Object(properties_now)));
    lemma_closed_value(second, "properties"@);
    lemma_closed_value(second, "required"@);
    let root = closed(Doc::Object(second))->Object_0;
    let shown = closed(Doc::Object(properties_now))->Object_0;
    assert forall|name: Seq<char>|
        (name != "additionalProperties"@ || (value_of(properties, "properties"@) is None
            && value_of(properties, "type"@) != Some(Doc::Text("object"@)))) implies (
    #[trigger] value_of(shown, name)) == match value_of(properties, name) {
        Some(p) => Some(sanitized_property(p, listed(given, name))),
        None => None,
    } by {
        lemma_properties_now(properties, required, "properties"@);
        lemma_properties_now(properties, required, "type"@);
        lemma_properties_now(properties, required, name);
        lemma_closed_value(properties_now, name);
        lemma_lists(required, name);
        assert(lists(required, name) == listed(given, name));
    }
    assert forall|name: Seq<char>|
        (#[trigger] value_of(properties, name)) is Some implies listed(
        value_of(root, "required"@),
        name,
    ) by {
        lemma_properties_now(properties, required, name);
        lemma_required_now(spelled, required, name);
        lemma_list_stays(value_of(second, "required"@), name);
    }
    assert forall|name: Seq<char>| #[trigger]
        listed(value_of(root, "required"@), name) implies value_of(properties, name) is Some
        || listed(given, name) by {
        lemma_properties_now(properties, required, name);
        lemma_required_now(spelled, required, name);
        if value_of(second, "required"@) is Some {
            lemma_list_stays(value_of(second, "required"@), name);
        }
        assert(lists(required, name) == listed(given, name));
        lemma_lists(required, name);
    }
    (root, shown)
}

/// The properties after the second pass.
proof fn lemma_properties_now(properties: Members, required: Option<Doc>, name: Seq<char>)
    ensures
        ({
            let spelled = properties_spelled_out(properties, properties.len() as int);
            let now = if all_required(spelled, required) {
                spelled
            } else {
                optional_nullable(spelled, required)
            };
            &&& value_of(spelled, name) == match value_of(properties, name) {
                Some(p) => Some(spelled_out(p)),
                None => None,
            }
            &&& value_of(now, name) == match value_of(properties, name) {
                Some(p) => Some(
                    if listed(required, name) {
                        spelled_out(p)
                    } else {
                        nullable(spelled_out(p))
                    },
                ),
                None => None,
            }
            &&& value_of(now, name) == Some(Doc::Text("object"@)) ==> value_of(properties, name)
                == Some(Doc::Text("object"@))
        }),
{
    let n = properties.len() as int;
    let spelled = properties_spelled_out(properties, n);
    assert(properties.take(n) =~= properties);
    lemma_spelled_properties(properties, n, name);
    lemma_optional(spelled, required, name);
    lemma_lists(required, name);
    if all_required(spelled, required) && value_of(spelled, name) is Some {
        law_value_is_that_of_the_last_member(spelled, name);
        let i = choose|i: int|
            0 <= i < spelled.len() && #[trigger] spelled[i] == (name, value_of(spelled, name)->0);
        assert(lists(required, spelled[i].0));
    }
}

/// The list of required names after the second pass.
proof fn lemma_required_now(spelled: Members, required: Option<Doc>, name: Seq<char>)
    ensures
        listed(Some(Doc::Array(names_of(spelled))), name) == (value_of(spelled, name) is Some),
        all_required(spelled, required) && value_of(spelled, name) is Some ==> listed(
            required,
            name,
        ),
{
    law_value_is_that_of_the_last_member(spelled, name);
    lemma_lists(required, name);
    let names = names_of(spelled);
    if value_of(spelled, name) is Some {
        let i = choose|i: int|
            0 <= i < spelled.len() && #[trigger] spelled[i] == (name, value_of(spelled, name)->0);
        assert(names[i] == Doc::Text(name));
        if all_required(spelled, required) {
            assert(lists(required, spelled[i].0));
        }
    }
    if names.contains(Doc::Text(name)) {
        let i = choose|i: int| 0 <= i < names.len() && names[i] == Doc::Text(name);
        assert(spelled[i].0 == name);
    }
}

/// Whether a sanitized schema has a property, and what its schema is: an
/// object schema is asked for the value under "properties".
pub open spec fn property_of(schema: Doc, name: Seq<char>) -> Option<Doc> {
    match schema {
        Doc::Object(members) => match value_of(members, "properties"@) {
            Some(Doc::Object(properties)) => value_of(properties, name),
            _ => None,
        },
        _ => None,
    }
}

/// Whether the root of a schema requires a property.
pub open spec fn requires_property(schema: Doc, name: Seq<char>) -> bool {
    schema matches Doc::Object(members) && listed(value_of(members, "required"@), name)
}

/// Whether the properties of a schema read as an object schema themselves:
/// one of them is named "properties", or "type" is bound to "object". Then
/// they too get a member "additionalProperties".
pub open spec fn properties_read_as_schema(schema: Doc) -> bool {
    property_of(schema, "properties"@) is Some || property_of(schema, "type"@) == Some(
        Doc::Text("object"@),
    )
}

/// After sanitizing an object schema, a property that the root required
/// accepts exactly what it accepted, and has the type it had; a property that
/// the root did not require and that has a type accepts null, and beside it
/// exactly what it accepted before.
pub proof fn law_optional_becomes_nullable(schema: Doc, name: Seq<char>, p: Doc)
    requires
        property_of(schema, name) == Some(p),
        name != "additionalProperties"@ || !properties_read_as_schema(schema),
    ensures
        property_of(sanitized(schema), name) matches Some(q) && {
            &&& requires_property(schema, name) ==> (forall|t: Seq<char>| #[trigger]
                accepts(q, t) == accepts(p, t))
            &&& requires_property(schema, name) && type_of(p) is Some && type_of(p)->0 is Text
                ==> type_of(q) == type_of(p)
            &&& !requires_property(schema, name) && is_typed(p) ==> accepts(q, "null"@)
            &&& !requires_property(schema, name) ==> (forall|t: Seq<char>|
                t != "null"@ ==> #[trigger] accepts(q, t) == accepts(p, t))
            &&& type_of(p) is None ==> type_of(q) is None
        },
{
    let members = schema->Object_0;
    let properties = value_of(members, "properties"@)->0->Object_0;
    let (root, shown) = lemma_sanitized_root(members, properties);
    let required = listed(value_of(members, "required"@), name);
    let q = sanitized_property(p, required);
    assert(value_of(shown, name) == Some(q));
    let s = spelled_out(p);
    assert forall|t: Seq<char>| required implies #[trigger] accepts(q, t) == accepts(p, t) by {
        lemma_accepts_stays(p, t);
        lemma_accepts_stays(s, t);
    }
    assert forall|t: Seq<char>| !required && t != "null"@ implies #[trigger] accepts(q, t)
        == accepts(p, t) by {
        lemma_accepts_stays(p, t);
        lemma_accepts_null(s, t);
        lemma_accepts_stays(nullable(s), t);
    }
    if !required && is_typed(p) {
        lemma_accepts_stays(p, "null"@);
        lemma_accepts_null(s, "null"@);
        lemma_accepts_stays(nullable(s), "null"@);
    }
    lemma_type_after_spelling(p);
    lemma_type_after_closing(s);
    lemma_type_after_closing(nullable(s));
}

/// After sanitizing an object schema, the root requires every property that it
/// has, and nothing that it neither has nor required before.
pub proof fn law_every_property_is_required(schema: Doc, name: Seq<char>)
    requires
        schema matches Doc::Object(members) && value_of(members, "properties"@) matches Some(
            Doc::Object(_),
        ),
    ensures
        property_of(schema, name) is Some ==> requires_property(sanitized(schema), name),
        requires_property(sanitized(schema), name) ==> property_of(schema, name) is Some
            || requires_property(schema, name),
        name != "additionalProperties"@ ==> (property_of(sanitized(schema), name) is Some
            <==> property_of(schema, name) is Some),
{
    let members = schema->Object_0;
    let properties = value_of(members, "properties"@)->0->Object_0;
    let (root, shown) = lemma_sanitized_root(members, properties);
    assert(value_of(root, "properties"@) == Some(Doc::Object(shown)));
    if name != "additionalProperties"@ {
        assert(value_of(shown, name) is Some <==> value_of(properties, name) is Some);
    }
    if value_of(properties, name) is Some {
        assert(listed(value_of(root, "required"@), name));
    }
}

/// A property that is the bare `true` takes anything after sanitizing as well,
/// and one that is the bare `false` nothing.
pub proof fn law_bare_booleans_keep_their_meaning(schema: Doc, name: Seq<char>, b: bool)
    requires
        property_of(schema, name) == Some(Doc::Bool(b)),
        name != "additionalProperties"@ || !properties_read_as_schema(schema),
    ensures
        property_of(sanitized(schema), name) == Some(
            Doc::Object(
                if b {
                    Seq::empty()
                } else {
                    seq![("not"@, Doc::Object(Seq::empty()))]
                },
            ),
        ),
{
    let members = schema->Object_0;
    let properties = value_of(members, "properties"@)->0->Object_0;
    let (root, shown) = lemma_sanitized_root(members, properties);
    let required = listed(value_of(members, "required"@), name);
    let q = sanitized_property(Doc::Bool(b), required);
    assert(value_of(shown, name) == Some(q));
    reveal_strlit("not");
    reveal_strlit("type");
    reveal_strlit("properties");
    assert("not"@.len() == 3 && "type"@.len() == 4 && "properties"@.len() == 10);
    let none: Members = Seq::empty();
    assert(closed_members(none, 0) =~= none);
    assert(value_of(none, TYPE_KEY@) is None && value_of(none, PROPERTIES_KEY@) is None);
    assert(closed(Doc::Object(none)) == Doc::Object(none));
    if b {
        assert(spelled_out(Doc::Bool(b)) == Doc::Object(none));
    } else {
        let m: Members = seq![("not"@, Doc::Object(Seq::empty()))];
        assert(spelled_out(Doc::Bool(b)) == Doc::Object(m));
        assert(m.drop_last() =~= none);
        assert(value_of(m, TYPE_KEY@) is None);
        assert(value_of(m, PROPERTIES_KEY@) is None);
        assert(nullable(Doc::Object(m)) == Doc::Object(m));
        reveal_with_fuel(closed_members, 2);
        assert(closed_members(m, 1) =~= m);
        assert(closed(Doc::Object(m)) == Doc::Object(m));
    }
}

/// What a property says in words stays: a text under any key but "type" and
/// "additionalProperties" is the same after sanitizing.
pub proof fn law_texts_of_a_property_stay(
    schema: Doc,
    name: Seq<char>,
    p: Members,
    key: Seq<char>,
    text: Seq<char>,
)
    requires
        property_of(schema, name) == Some(Doc::Object(p)),
        name != "additionalProperties"@ || !properties_read_as_schema(schema),
        value_of(p, key) == Some(Doc::Text(text)),
        key != "type"@,
        key != "additionalProperties"@,
    ensures
        property_of(sanitized(schema), name) matches Some(Doc::Object(q)) && value_of(q, key)
            == Some(Doc::Text(text)),
{
    let members = schema->Object_0;
    let properties = value_of(members, "properties"@)->0->Object_0;
    let (root, shown) = lemma_sanitized_root(members, properties);
    let required = listed(value_of(members, "required"@), name);
    let q = sanitized_property(Doc::Object(p), required);
    assert(value_of(shown, name) == Some(q));
    let n = p.len() as int;
    assert(p.take(n) =~= p);
    lemma_spelled_members(p, n, key);
    let s = members_without_bare_booleans(p, n);
    assert(value_of(s, key) == Some(Doc::Text(text)));
    lemma_closed_value(s, key);
    match nullable(Doc::Object(s)) {
        Doc::Object(nulled) => {
            lemma_nullable_keeps(s, key);
            lemma_closed_value(nulled, key);
        },
        _ => {},
    }
}

proof fn lemma_nullable_keeps(members: Members, key: Seq<char>)
    requires
        key != "type"@,
    ensures
        nullable(Doc::Object(members)) matches Doc::Object(now) && value_of(now, key) == value_of(
            members,
            key,
        ),
{
    match value_of(members, TYPE_KEY@) {
        Some(Doc::Text(s)) => {
            lemma_with(
                members,
                TYPE_KEY@,
                Doc::Array(seq![Doc::Text(s), Doc::Text("null"@)]),
                key,
            );
        },
        Some(Doc::Array(types)) => {
            lemma_with(members, TYPE_KEY@, Doc::Array(types.push(Doc::Text("null"@))), key);
        },
        _ => {},
    }
}

/// What the root says in words stays as well, its type among it.
pub proof fn law_texts_of_the_root_stay(members: Members, key: Seq<char>, text: Seq<char>)
    requires
        value_of(members, key) == Some(Doc::Text(text)),
        key != "required"@,
        key != "additionalProperties"@,
    ensures
        sanitized(Doc::Object(members)) matches Doc::Object(now) && value_of(now, key) == Some(
            Doc::Text(text),
        ),
{
    let n = members.len() as int;
    assert(members.take(n) =~= members);
    lemma_spelled_members(members, n, key);
    let first = members_without_bare_booleans(members, n);
    assert(value_of(first, key) == Some(Doc::Text(text)));
    match value_of(first, PROPERTIES_KEY@) {
        Some(Doc::Object(properties)) => {
            let required = value_of(first, REQUIRED_KEY@);
            let optional = Doc::Object(optional_nullable(properties, required));
            let middle = with(first, PROPERTIES_KEY@, optional);
            lemma_with(first, PROPERTIES_KEY@, optional, key);
            lemma_with(middle, REQUIRED_KEY@, Doc::Array(names_of(properties)), key);
        },
        _ => {},
    }
    match requiring_all(Doc::Object(first)) {
        Doc::Object(second) => {
            lemma_closed_value(second, key);
        },
        _ => {},
    }
}

/// A schema is refused exactly where its root says that its values are of one
/// type other than an object, and the refusal names that type.
pub proof fn law_only_foreign_types_are_refused(schema: Doc)
    ensures
        match foreign_type(schema) {
            Some(t) => {
                &&& type_of(schema) == Some(Doc::Text(t))
                &&& t != "object"@
                &&& contains_text(refusal(t), t)
            },
            None => type_of(schema) is Some && type_of(schema)->0 is Text ==> type_of(schema)->0
                == Doc::Text("object"@),
        },
{
    match foreign_type(schema) {
        Some(t) => {
            lemma_holds(
                "Invalid MCP tool schema: root must be type 'object', got '"@,
                t,
                "'. This is an MCP server bug - the server is returning a type definition as a tool."@,
            );
        },
        None => {},
    }
}

/// Whether every object schema within a value, the value itself among them,
/// says that it takes no further properties. An object schema says that its
/// values are objects, or lists properties.
pub open spec fn refuses_more(value: Doc) -> bool
    decreases value,
{
    match value {
        Doc::Object(members) => {
            &&& value_of(members, "type"@) == Some(Doc::Text("object"@)) || value_of(
                members,
                "properties"@,
            ) is Some ==> value_of(members, "additionalProperties"@) == Some(Doc::Bool(false))
            &&& forall|i: int| 0 <= i < members.len() ==> refuses_more((#[trigger] members[i]).1)
        },
        Doc::Array(items) => forall|i: int|
            0 <= i < items.len() ==> refuses_more(#[trigger] items[i]),
        _ => true,
    }
}

proof fn lemma_strict_refuses_more(value: Doc)
    requires
        is_strict(value),
    ensures
        refuses_more(value),
    decreases value,
{
    match value {
        Doc::Object(members) => {
            assert forall|i: int| 0 <= i < members.len() implies refuses_more(
                (#[trigger] members[i]).1,
            ) by {
                assert(decreases_to!(members => members[i]));
                assert(is_strict(members[i].1));
                lemma_strict_refuses_more(members[i].1);
            }
        },
        Doc::Array(items) => {
            assert forall|i: int| 0 <= i < items.len() implies refuses_more(
                #[trigger] items[i],
            ) by {
                assert(decreases_to!(items => items[i]));
                assert(is_strict(items[i]));
                lemma_strict_refuses_more(items[i]);
            }
        },
        _ => {},
    }
}

/// A sanitized schema takes no properties that it does not list, at any depth.
pub proof fn law_further_properties_are_refused(schema: Doc)
    ensures
        refuses_more(sanitized(schema)),
{
    law_sanitized_is_strict(schema);
    lemma_strict_refuses_more(sanitized(schema));
}

} // verus!
