//! What the canonical text of arguments tells apart, and what the guard's
//! notes say.
use super::duplicate_call_guard::{
    annotated, canonical, filled, first_guarded, guard_data, guard_step, rendered_items,
    rendered_members, GuardModel, ABORT_TEMPLATE, GUIDANCE_TEMPLATE, REASONING_KEY,
};
use crate::json::ordering::{in_key_order, key_place, rendered_texts, Rendered};
use crate::json::{escaped, escaped_char, hex_digit, quoted, scalar_text, Json, Member};
use crate::text::numerals::{digit_value, lemma_numeral_digits, numeral, signed_numeral};
use crate::text::parts::{
    law_joined_tells_a_part_apart, law_numerals_tell_numbers_apart, law_replacing_joins_the_rest,
    lemma_holds, lemma_holds_what_a_part_holds, lemma_part_decides,
    lemma_replacing_keeps_the_start,
};
use crate::text::search::{contains_text, first_of, lemma_find_from, occurs_at, replaced};
use crate::text::trim::joined;
use vstd::prelude::*;

verus! {

// ---------------------------------------------------------------------------
// Strings
// ---------------------------------------------------------------------------

proof fn lemma_escaped_first(c: char, s: Seq<char>)
    ensures
        escaped(seq![c] + s) == escaped_char(c) + escaped(s),
    decreases s.len(),
{
    let all = seq![c] + s;
    if s.len() == 0 {
        reveal_with_fuel(escaped, 2);
        assert(all.drop_last().len() == 0);
        assert(all.last() == c);
        assert(escaped(all) =~= escaped_char(c) + escaped(s));
    } else {
        assert(all.drop_last() =~= seq![c] + s.drop_last());
        assert(all.last() == s.last());
        lemma_escaped_first(c, s.drop_last());
        assert(escaped(all) =~= escaped_char(c) + escaped(s));
    }
}

proof fn lemma_hex_digits(a: int, b: int)
    requires
        0 <= a < 16,
        0 <= b < 16,
        hex_digit(a) == hex_digit(b),
    ensures
        a == b,
{
}

/// The text of one character says where it ends and which character it is.
proof fn lemma_escaped_char(c: char, d: char, x: Seq<char>, y: Seq<char>)
    requires
        escaped_char(c) + x == escaped_char(d) + y,
    ensures
        c == d,
        x == y,
{
    let (ec, ed) = (escaped_char(c), escaped_char(d));
    let (p, q) = (ec + x, ed + y);
    assert(p[0] == ec[0] && q[0] == ed[0]);
    let (u, v) = (c as u32, d as u32);
    if ec[0] == '\\' {
        assert(ed.len() > 1);
        assert(p[1] == ec[1] && q[1] == ed[1]);
        if ec[1] == 'u' {
            assert(p[4] == ec[4] && q[4] == ed[4]);
            assert(p[5] == ec[5] && q[5] == ed[5]);
            lemma_hex_digits(u as int / 16, v as int / 16);
            lemma_hex_digits(u as int % 16, v as int % 16);
            assert(u == v);
        }
    }
    assert(u == v);
    assert(c == d);
    assert(x =~= p.skip(ec.len() as int));
    assert(y =~= q.skip(ed.len() as int));
}

/// Different texts are different JSON strings.
pub proof fn law_strings_are_told_apart(s: Seq<char>, t: Seq<char>)
    requires
        quoted(s) == quoted(t),
    ensures
        s == t,
{
    lemma_part_decides(seq!['"'], escaped(s), escaped(t), seq!['"']);
    lemma_escaped_apart(s, t);
}

proof fn lemma_escaped_apart(s: Seq<char>, t: Seq<char>)
    requires
        escaped(s) == escaped(t),
    ensures
        s == t,
    decreases s.len(),
{
    if s.len() == 0 {
        if t.len() > 0 {
            assert(escaped_char(t.last()).len() > 0);
        }
        assert(s =~= t);
    } else if t.len() == 0 {
        assert(escaped_char(s.last()).len() > 0);
    } else {
        assert(s =~= seq![s[0]] + s.drop_first());
        assert(t =~= seq![t[0]] + t.drop_first());
        lemma_escaped_first(s[0], s.drop_first());
        lemma_escaped_first(t[0], t.drop_first());
        lemma_escaped_char(s[0], t[0], escaped(s.drop_first()), escaped(t.drop_first()));
        lemma_escaped_apart(s.drop_first(), t.drop_first());
    }
}

// ---------------------------------------------------------------------------
// Scalars
// ---------------------------------------------------------------------------

/// A null, boolean, number or string. The text of a number that is no integer
/// starts with a digit or a sign and has a point or an exponent.
pub open spec fn is_scalar(v: Json) -> bool {
    match v {
        Json::Array(_) => false,
        Json::Object(_) => false,
        Json::Float(s) => {
            &&& s@.len() > 0
            &&& digit_value(s@[0]) is Some || s@[0] == '-'
            &&& exists|i: int|
                0 <= i < s@.len() && (#[trigger] s@[i] == '.' || s@[i] == 'e' || s@[i] == 'E')
        },
        _ => true,
    }
}

/// Whether two scalars are equal: an integer is the same in either of the two
/// forms.
pub open spec fn equal_scalars(a: Json, b: Json) -> bool {
    match (a, b) {
        (Json::Null, Json::Null) => true,
        (Json::Bool(x), Json::Bool(y)) => x == y,
        (Json::UInt(x), Json::UInt(y)) => x == y,
        (Json::Int(x), Json::Int(y)) => x == y,
        (Json::UInt(x), Json::Int(y)) => x as int == y as int,
        (Json::Int(x), Json::UInt(y)) => x as int == y as int,
        (Json::Float(x), Json::Float(y)) => x@ == y@,
        (Json::Text(x), Json::Text(y)) => x@ == y@,
        _ => false,
    }
}

/// Whether a scalar is an integer, and which.
spec fn integer(v: Json) -> Option<int> {
    match v {
        Json::UInt(n) => Some(n as int),
        Json::Int(n) => Some(n as int),
        _ => None,
    }
}

proof fn lemma_integer_text(n: int)
    ensures
        signed_numeral(n).len() > 0,
        forall|i: int|
            0 <= i < signed_numeral(n).len() ==> digit_value(#[trigger] signed_numeral(n)[i])
                is Some || signed_numeral(n)[i] == '-',
        signed_numeral(n)[0] == '-' <==> n < 0,
{
    reveal_strlit("-");
    if n < 0 {
        let m = (-n) as nat;
        lemma_numeral_digits(m);
        let text = signed_numeral(n);
        assert forall|i: int| 0 <= i < text.len() implies digit_value(#[trigger] text[i]) is Some
            || text[i] == '-' by {
            if i > 0 {
                assert(text[i] == numeral(m)[i - 1]);
            }
        }
    } else {
        lemma_numeral_digits(n as nat);
        assert(digit_value(numeral(n as nat)[0]) is Some);
    }
}

proof fn lemma_integers_apart(m: int, n: int)
    requires
        signed_numeral(m) == signed_numeral(n),
    ensures
        m == n,
{
    lemma_integer_text(m);
    lemma_integer_text(n);
    if m < 0 {
        let (x, y) = (numeral((-m) as nat), numeral((-n) as nat));
        assert("-"@ + x + Seq::empty() =~= signed_numeral(m));
        assert("-"@ + y + Seq::empty() =~= signed_numeral(n));
        lemma_part_decides("-"@, x, y, Seq::empty());
        law_numerals_tell_numbers_apart((-m) as nat, (-n) as nat);
    } else {
        law_numerals_tell_numbers_apart(m as nat, n as nat);
    }
}

/// The first character of a scalar's text.
spec fn opening(v: Json) -> Set<char> {
    match v {
        Json::Null => set!['n'],
        Json::Bool(b) => if b {
            set!['t']
        } else {
            set!['f']
        },
        Json::Text(_) => set!['"'],
        _ => Set::new(|c: char| digit_value(c) is Some || c == '-'),
    }
}

proof fn lemma_opening(v: Json)
    requires
        is_scalar(v),
    ensures
        scalar_text(v).len() > 0,
        opening(v).contains(scalar_text(v)[0]),
        integer(v) matches Some(n) ==> scalar_text(v) == signed_numeral(n),
{
    reveal_strlit("null");
    reveal_strlit("true");
    reveal_strlit("false");
    match integer(v) {
        Some(n) => {
            lemma_integer_text(n);
        },
        None => {},
    }
}

/// The canonical text tells scalars apart: two null, boolean, number or string
/// arguments with the same canonical text are equal.
pub proof fn law_scalars_are_told_apart(a: Json, b: Json)
    requires
        is_scalar(a),
        is_scalar(b),
        canonical(a) == canonical(b),
    ensures
        equal_scalars(a, b),
{
    lemma_opening(a);
    lemma_opening(b);
    let text = canonical(a);
    match (a, b) {
        (Json::Text(s), Json::Text(t)) => {
            law_strings_are_told_apart(s@, t@);
        },
        _ => match (integer(a), integer(b)) {
            (Some(m), Some(n)) => {
                lemma_integers_apart(m, n);
            },
            (Some(m), None) => {
                lemma_integer_text(m);
                assert(digit_value(text[0]) is Some || text[0] == '-');
                assert(b is Float);
                let i = choose|i: int|
                    0 <= i < text.len() && (#[trigger] text[i] == '.' || text[i] == 'e' || text[i]
                        == 'E');
                assert(digit_value(text[i]) is Some || text[i] == '-');
            },
            (None, Some(n)) => {
                lemma_integer_text(n);
                assert(digit_value(text[0]) is Some || text[0] == '-');
                assert(a is Float);
                let i = choose|i: int|
                    0 <= i < text.len() && (#[trigger] text[i] == '.' || text[i] == 'e' || text[i]
                        == 'E');
                assert(digit_value(text[i]) is Some || text[i] == '-');
            },
            (None, None) => {},
        },
    }
}

/// The texts of null and of the booleans are their names; a string stands
/// between double quotes.
pub proof fn law_scalars_by_name(text: String)
    ensures
        canonical(Json::Null) == "null"@,
        canonical(Json::Bool(true)) == "true"@,
        canonical(Json::Bool(false)) == "false"@,
        canonical(Json::Text(text))[0] == '"',
        canonical(Json::Text(text)).last() == '"',
{
}

// ---------------------------------------------------------------------------
// Arrays
// ---------------------------------------------------------------------------

proof fn lemma_rendered_items(items: Seq<Json>, n: int)
    requires
        0 <= n <= items.len(),
    ensures
        rendered_items(items, n).len() == n,
        forall|i: int| 0 <= i < n ==> #[trigger] rendered_items(items, n)[i] == canonical(items[i]),
    decreases n,
{
    if n > 0 {
        lemma_rendered_items(items, n - 1);
    }
}

/// Arrays that differ in one item alone have different texts, where the texts
/// of that item differ.
pub proof fn law_items_are_told_apart(a: Vec<Json>, b: Vec<Json>, k: int)
    requires
        a@.len() == b@.len(),
        0 <= k < a@.len(),
        forall|i: int|
            0 <= i < a@.len() && i != k ==> canonical(#[trigger] a@[i]) == canonical(b@[i]),
        canonical(a@[k]) != canonical(b@[k]),
    ensures
        canonical(Json::Array(a)) != canonical(Json::Array(b)),
{
    let n = a@.len() as int;
    lemma_rendered_items(a@, n);
    lemma_rendered_items(b@, n);
    let (x, y) = (rendered_items(a@, n), rendered_items(b@, n));
    law_joined_tells_a_part_apart(x, y, ","@, k);
    if canonical(Json::Array(a)) == canonical(Json::Array(b)) {
        lemma_part_decides("["@, joined(x, ","@), joined(y, ","@), "]"@);
    }
}

// ---------------------------------------------------------------------------
// Objects
// ---------------------------------------------------------------------------

/// Whether two lists have the same keys, in the same order.
spec fn same_keys(a: Seq<Rendered>, b: Seq<Rendered>) -> bool {
    &&& a.len() == b.len()
    &&& forall|i: int| 0 <= i < a.len() ==> (#[trigger] a[i]).key == b[i].key
}

/// Whether two lists with the same keys have the same texts but at one place,
/// where they have different ones.
spec fn differ_at(a: Seq<Rendered>, b: Seq<Rendered>, k: int) -> bool {
    &&& same_keys(a, b)
    &&& 0 <= k < a.len()
    &&& forall|i: int| 0 <= i < a.len() && i != k ==> (#[trigger] a[i]).text == b[i].text
    &&& a[k].text != b[k].text
}

proof fn lemma_key_place(a: Seq<Rendered>, b: Seq<Rendered>, key: Seq<char>)
    requires
        same_keys(a, b),
    ensures
        key_place(a, key) == key_place(b, key),
        key_place(a, key) <= a.len(),
    decreases a.len(),
{
    if a.len() > 0 {
        assert(a[a.len() - 1].key == b[b.len() - 1].key);
        assert forall|i: int| 0 <= i < a.drop_last().len() implies (
        #[trigger] a.drop_last()[i]).key == b.drop_last()[i].key by {
            assert(a[i].key == b[i].key);
        }
        lemma_key_place(a.drop_last(), b.drop_last(), key);
    }
}

proof fn lemma_in_order_same_keys(a: Seq<Rendered>, b: Seq<Rendered>)
    requires
        same_keys(a, b),
    ensures
        same_keys(in_key_order(a), in_key_order(b)),
    decreases a.len(),
{
    if a.len() > 0 {
        let (x, y) = (a.drop_last(), b.drop_last());
        assert forall|i: int| 0 <= i < x.len() implies (#[trigger] x[i]).key == y[i].key by {
            assert(a[i].key == b[i].key);
        }
        lemma_in_order_same_keys(x, y);
        assert(a[a.len() - 1].key == b[b.len() - 1].key);
        lemma_key_place(in_key_order(x), in_key_order(y), a.last().key);
        let q = key_place(in_key_order(x), a.last().key) as int;
        let (s, t) = (in_key_order(a), in_key_order(b));
        assert forall|i: int| 0 <= i < s.len() implies (#[trigger] s[i]).key == t[i].key by {
            if i < q {
                assert(s[i] == in_key_order(x)[i]);
                assert(in_key_order(x)[i].key == in_key_order(y)[i].key);
            } else if i > q {
                assert(s[i] == in_key_order(x)[i - 1]);
                assert(in_key_order(x)[i - 1].key == in_key_order(y)[i - 1].key);
            }
        }
    }
}

proof fn lemma_in_order_differ(a: Seq<Rendered>, b: Seq<Rendered>, k: int) -> (p: int)
    requires
        differ_at(a, b, k),
    ensures
        differ_at(in_key_order(a), in_key_order(b), p),
    decreases a.len(),
{
    lemma_in_order_same_keys(a, b);
    let (x, y) = (a.drop_last(), b.drop_last());
    assert forall|i: int| 0 <= i < x.len() implies (#[trigger] x[i]).key == y[i].key && (i != k
        ==> x[i].text == y[i].text) by {
        assert(a[i].key == b[i].key);
        if i != k {
            assert(a[i].text == b[i].text);
        }
    }
    let (sx, sy) = (in_key_order(x), in_key_order(y));
    lemma_in_order_same_keys(x, y);
    let key = a.last().key;
    assert(a[a.len() - 1].key == b[b.len() - 1].key);
    lemma_key_place(sx, sy, key);
    let q = key_place(sx, key) as int;
    let (s, t) = (in_key_order(a), in_key_order(b));
    assert(s == sx.insert(q, a.last()));
    assert(t == sy.insert(q, b.last()));
    if k == a.len() - 1 {
        assert forall|i: int| 0 <= i < x.len() implies #[trigger] x[i] == y[i] by {}
        assert(x =~= y);
        assert forall|i: int| 0 <= i < s.len() && i != q implies (#[trigger] s[i]).text
            == t[i].text by {
            if i < q {
                assert(s[i] == sx[i]);
            } else {
                assert(s[i] == sx[i - 1]);
            }
        }
        q
    } else {
        let p = lemma_in_order_differ(x, y, k);
        assert(a[a.len() - 1].text == b[b.len() - 1].text);
        let r = if p < q {
            p
        } else {
            p + 1
        };
        assert forall|i: int| 0 <= i < s.len() && i != r implies (#[trigger] s[i]).text
            == t[i].text by {
            if i < q {
                assert(s[i] == sx[i] && t[i] == sy[i]);
                assert(sx[i].text == sy[i].text);
            } else if i > q {
                assert(s[i] == sx[i - 1] && t[i] == sy[i - 1]);
                assert(sx[i - 1].text == sy[i - 1].text);
            }
        }
        assert(s[r] == sx[p] && t[r] == sy[p]);
        r
    }
}

/// Whether the members of two objects have the same keys, in the same order,
/// and but at one place the same texts.
pub open spec fn members_alike_but(a: Seq<Member>, b: Seq<Member>, k: int) -> bool {
    &&& a.len() == b.len()
    &&& 0 <= k < a.len()
    &&& forall|i: int| 0 <= i < a.len() ==> (#[trigger] a[i]).key@ == b[i].key@
    &&& forall|i: int|
        0 <= i < a.len() && i != k ==> canonical((#[trigger] a[i]).value) == canonical(b[i].value)
}

proof fn lemma_rendered_alike(a: Seq<Member>, b: Seq<Member>, k: int, n: int)
    requires
        members_alike_but(a, b, k),
        0 <= n <= k,
    ensures
        rendered_members(a, n) == rendered_members(b, n),
    decreases n,
{
    if n > 0 {
        lemma_rendered_alike(a, b, k, n - 1);
        assert(a[n - 1].key@ == b[n - 1].key@);
        assert(canonical(a[n - 1].value) == canonical(b[n - 1].value));
    }
}

proof fn lemma_rendered_differ(a: Seq<Member>, b: Seq<Member>, k: int, n: int) -> (at: int)
    requires
        members_alike_but(a, b, k),
        a[k].key@ != REASONING_KEY@,
        canonical(a[k].value) != canonical(b[k].value),
        k < n <= a.len(),
    ensures
        differ_at(rendered_members(a, n), rendered_members(b, n), at),
    decreases n,
{
    let (x, y) = (rendered_members(a, n - 1), rendered_members(b, n - 1));
    let (s, t) = (rendered_members(a, n), rendered_members(b, n));
    assert(a[n - 1].key@ == b[n - 1].key@);
    if k == n - 1 {
        lemma_rendered_alike(a, b, k, k);
        let before = a[k].key@ + ":"@;
        let (ca, cb) = (canonical(a[k].value), canonical(b[k].value));
        assert(s == x.push(Rendered { key: a[k].key@, text: before + ca }));
        assert(t == y.push(Rendered { key: a[k].key@, text: before + cb }));
        if before + ca == before + cb {
            assert(before + ca + Seq::empty() =~= before + ca);
            assert(before + cb + Seq::empty() =~= before + cb);
            lemma_part_decides(before, ca, cb, Seq::empty());
        }
        x.len() as int
    } else {
        let at = lemma_rendered_differ(a, b, k, n - 1);
        assert(canonical(a[n - 1].value) == canonical(b[n - 1].value));
        assert forall|i: int| 0 <= i < s.len() implies (#[trigger] s[i]).key == t[i].key && (i
            != at ==> s[i].text == t[i].text) by {
            if i < x.len() {
                assert(s[i] == x[i] && t[i] == y[i]);
                assert(x[i].key == y[i].key);
            }
        }
        assert(s[at] == x[at] && t[at] == y[at]);
        at
    }
}

/// Objects that differ in the value of one member alone, which is not the
/// reasoning, have different texts, where the texts of that value differ.
pub proof fn law_members_are_told_apart(a: Vec<Member>, b: Vec<Member>, k: int)
    requires
        members_alike_but(a@, b@, k),
        a@[k].key@ != "_aura_reasoning"@,
        canonical(a@[k].value) != canonical(b@[k].value),
    ensures
        canonical(Json::Object(a)) != canonical(Json::Object(b)),
{
    let n = a@.len() as int;
    let (ra, rb) = (rendered_members(a@, n), rendered_members(b@, n));
    let at = lemma_rendered_differ(a@, b@, k, n);
    let p = lemma_in_order_differ(ra, rb, at);
    let (sa, sb) = (in_key_order(ra), in_key_order(rb));
    let (ta, tb) = (rendered_texts(sa), rendered_texts(sb));
    assert forall|i: int| 0 <= i < ta.len() && i != p implies #[trigger] ta[i] == tb[i] by {
        assert(sa[i].text == sb[i].text);
    }
    law_joined_tells_a_part_apart(ta, tb, ","@, p);
    if canonical(Json::Object(a)) == canonical(Json::Object(b)) {
        lemma_part_decides("{"@, joined(ta, ","@), joined(tb, ","@), "}"@);
    }
}

/// Arguments that differ in one scalar member have different texts: a call
/// with `true` is not a call with `false`.
pub proof fn law_scalar_members_are_told_apart(a: Vec<Member>, b: Vec<Member>, k: int)
    requires
        members_alike_but(a@, b@, k),
        a@[k].key@ != "_aura_reasoning"@,
        is_scalar(a@[k].value),
        is_scalar(b@[k].value),
        !equal_scalars(a@[k].value, b@[k].value),
    ensures
        canonical(Json::Object(a)) != canonical(Json::Object(b)),
{
    if canonical(a@[k].value) == canonical(b@[k].value) {
        law_scalars_are_told_apart(a@[k].value, b@[k].value);
    }
    law_members_are_told_apart(a, b, k);
}

/// The reasoning does not count: arguments that differ in it alone have the
/// same text.
pub proof fn law_reasoning_does_not_count(a: Vec<Member>, b: Vec<Member>, k: int)
    requires
        members_alike_but(a@, b@, k),
        a@[k].key@ == "_aura_reasoning"@,
    ensures
        canonical(Json::Object(a)) == canonical(Json::Object(b)),
{
    lemma_without_reasoning(a@, b@, k, a@.len() as int);
}

proof fn lemma_without_reasoning(a: Seq<Member>, b: Seq<Member>, k: int, n: int)
    requires
        members_alike_but(a, b, k),
        a[k].key@ == REASONING_KEY@,
        0 <= n <= a.len(),
    ensures
        rendered_members(a, n) == rendered_members(b, n),
    decreases n,
{
    if n > 0 {
        lemma_without_reasoning(a, b, k, n - 1);
        assert(a[n - 1].key@ == b[n - 1].key@);
        if n - 1 != k {
            assert(canonical(a[n - 1].value) == canonical(b[n - 1].value));
        }
    }
}

proof fn lemma_joined_insert(parts: Seq<Seq<char>>, separator: Seq<char>, at: int, x: Seq<char>)
    requires
        0 <= at <= parts.len(),
    ensures
        joined(parts.insert(at, x), separator).len() >= joined(parts, separator).len() + x.len(),
    decreases parts.len(),
{
    let all = parts.insert(at, x);
    if at == parts.len() {
        assert(all.drop_last() =~= parts);
        assert(all.last() == x);
    } else {
        assert(all.drop_last() =~= parts.drop_last().insert(at, x));
        assert(all.last() == parts.last());
        lemma_joined_insert(parts.drop_last(), separator, at, x);
    }
}

/// Every other member counts: arguments with one member more, which is not
/// the reasoning, have another text.
pub proof fn law_an_added_member_counts(a: Vec<Member>, b: Vec<Member>, m: Member)
    requires
        b@ == a@.push(m),
        m.key@ != "_aura_reasoning"@,
    ensures
        canonical(Json::Object(a)) != canonical(Json::Object(b)),
{
    let n = a@.len() as int;
    lemma_rendered_prefix(a@, b@, n);
    let before = rendered_members(a@, n);
    let last = Rendered { key: m.key@, text: m.key@ + ":"@ + canonical(m.value) };
    let all = rendered_members(b@, n + 1);
    assert(all == before.push(last));
    assert(all.drop_last() =~= before);
    let sorted = in_key_order(before);
    lemma_key_place(sorted, sorted, last.key);
    let q = key_place(sorted, last.key) as int;
    assert(in_key_order(all) == sorted.insert(q, last));
    assert(rendered_texts(in_key_order(all)) =~= rendered_texts(sorted).insert(q, last.text));
    lemma_joined_insert(rendered_texts(sorted), ","@, q, last.text);
    reveal_strlit(":");
    assert(last.text.len() > 0);
    let (short, long) = (
        joined(rendered_texts(sorted), ","@),
        joined(rendered_texts(in_key_order(all)), ","@),
    );
    assert(canonical(Json::Object(a)) == "{"@ + short + "}"@);
    assert(b@.len() == n + 1);
    assert(canonical(Json::Object(b)) == "{"@ + long + "}"@);
    assert(short.len() < long.len());
}

proof fn lemma_rendered_prefix(a: Seq<Member>, b: Seq<Member>, n: int)
    requires
        0 <= n <= a.len(),
        a.len() <= b.len(),
        forall|i: int| 0 <= i < a.len() ==> #[trigger] a[i] == b[i],
    ensures
        rendered_members(a, n) == rendered_members(b, n),
    decreases n,
{
    if n > 0 {
        lemma_rendered_prefix(a, b, n - 1);
        assert(a[n - 1] == b[n - 1]);
    }
}

/// Arrays, objects and scalars never have the same text.
pub proof fn law_shapes_are_told_apart(a: Vec<Member>, b: Vec<Json>, c: Json)
    requires
        is_scalar(c),
    ensures
        canonical(Json::Object(a)) != canonical(Json::Array(b)),
        canonical(Json::Object(a)) != canonical(c),
        canonical(Json::Array(b)) != canonical(c),
{
    reveal_strlit("{");
    reveal_strlit("[");
    assert(canonical(Json::Object(a))[0] == '{');
    assert(canonical(Json::Array(b))[0] == '[');
    lemma_opening(c);
}

// ---------------------------------------------------------------------------
// Guard data
// ---------------------------------------------------------------------------

/// Whether a value carries a tool's name and a fingerprint under their keys.
pub open spec fn carries(v: Json, tool_name: Seq<char>, hash: u64) -> bool {
    &&& v.member("dup_guard_tool_name"@) matches Some(Json::Text(name)) && name@ == tool_name
    &&& v.member("dup_guard_args_hash"@) matches Some(Json::UInt(n)) && n == hash
}

/// The guard data of a call is read from the value that carries it: from an
/// object itself, and from the first item of a list that names a guarded tool.
pub proof fn law_guard_data_is_read(v: Json, tool_name: Seq<char>, hash: u64, k: int)
    ensures
        v is Object && carries(v, tool_name, hash) ==> guard_data(Some(v)) == Some(
            (tool_name, hash),
        ),
        v matches Json::Array(items) ==> (0 <= k < items@.len() && carries(
            items@[k],
            tool_name,
            hash,
        ) && (forall|i: int|
            0 <= i < k ==> (#[trigger] items@[i]).member("dup_guard_tool_name"@) is None)
            ==> guard_data(Some(v)) == Some((tool_name, hash))),
        guard_data(None) is None,
{
    match v {
        Json::Array(items) => {
            if 0 <= k < items@.len() && carries(items@[k], tool_name, hash) && (forall|i: int|
                0 <= i < k ==> (#[trigger] items@[i]).member("dup_guard_tool_name"@) is None) {
                lemma_first_guarded(items@, k, 0);
            }
        },
        _ => {},
    }
}

proof fn lemma_first_guarded(items: Seq<Json>, k: int, i: int)
    requires
        0 <= i <= k < items.len(),
        items[k].member("dup_guard_tool_name"@) is Some,
        forall|j: int| i <= j < k ==> (#[trigger] items[j]).member("dup_guard_tool_name"@) is None,
    ensures
        first_guarded(items, i) == Some(items[k]),
    decreases k - i,
{
    if i < k {
        assert(items[i].member("dup_guard_tool_name"@) is None);
        lemma_first_guarded(items, k, i + 1);
    }
}

// ---------------------------------------------------------------------------
// Notes
// ---------------------------------------------------------------------------

/// A note made from a template that opens with `start`, has the tool's name
/// behind it and then the count.
proof fn lemma_note(
    template: Seq<char>,
    start: Seq<char>,
    rest: Seq<char>,
    tool_name: Seq<char>,
    count: nat,
)
    requires
        template == start + "%%TOOL_NAME%%"@ + rest,
        forall|i: int| 0 <= i < start.len() ==> start[i] != '%',
        forall|i: int| 0 <= i < tool_name.len() ==> tool_name[i] != '%',
        !contains_text(rest, "%%TOOL_NAME%%"@),
        contains_text(rest, "%%COUNT%%"@),
    ensures
        (start + tool_name).is_prefix_of(filled(template, tool_name, count)),
        contains_text(filled(template, tool_name, count), numeral(count)),
{
    reveal_strlit("%%TOOL_NAME%%");
    reveal_strlit("%%COUNT%%");
    let pat = "%%TOOL_NAME%%"@;
    lemma_find_from(template, pat, 0);
    let at = start.len() as int;
    assert(template.subrange(at, at + pat.len()) =~= pat);
    assert(occurs_at(template, pat, at));
    let i = first_of(template, pat)->0;
    assert(template.subrange(i, i + pat.len())[0] == pat[0]);
    assert(template[i] == '%');
    if i < at {
        assert(template[i] == start[i]);
    }
    assert(i == at);
    assert(template.skip(i + pat.len()) =~= rest);
    law_replacing_joins_the_rest(rest, pat, tool_name);
    let named = replaced(template, pat, tool_name);
    assert(template.take(i) =~= start);
    assert(named =~= start + tool_name + rest);
    let head = start + tool_name;
    assert(head =~= named.take(head.len() as int));
    lemma_replacing_keeps_the_start(named, head, "%%COUNT%%"@, numeral(count));
    assert(named =~= head + rest + Seq::empty());
    lemma_holds(head, rest, Seq::empty());
    lemma_holds_what_a_part_holds(named, rest, "%%COUNT%%"@);
    law_replacing_joins_the_rest(named, "%%COUNT%%"@, numeral(count));
}

/// From the block on, an output is followed by an abort that names the tool
/// and the count; from the nudge on, by guidance that does. Before the nudge
/// nothing is added. (A tool's name with a percent sign in it could be taken
/// for a place to fill in.)
pub proof fn law_notes_say_what_they_are(
    at: GuardModel,
    nudge: nat,
    block: nat,
    tool_name: Seq<char>,
    hash: u64,
    output: Seq<char>,
)
    requires
        !at.escalated,
        forall|i: int| 0 <= i < tool_name.len() ==> tool_name[i] != '%',
    ensures
        ({
            let (then, text) = guard_step(
                at,
                nudge,
                block,
                Some((tool_name, hash)),
                false,
                output,
            );
            let count = then.calls[hash].count;
            &&& output.is_prefix_of(text)
            &&& count >= block ==> {
                &&& ("\n\n[DUPLICATE_CALL_ABORT] '"@ + tool_name).is_prefix_of(
                    text.skip(output.len() as int),
                )
                &&& contains_text(text, numeral(count))
            }
            &&& nudge <= count < block ==> {
                &&& ("\n\n[DUPLICATE_CALL_GUIDANCE] '"@ + tool_name).is_prefix_of(
                    text.skip(output.len() as int),
                )
                &&& contains_text(text, numeral(count))
            }
            &&& count < nudge && count < block ==> text == output
        }),
{
    let (then, text) = guard_step(at, nudge, block, Some((tool_name, hash)), false, output);
    let count = then.calls[hash].count;
    if count >= block {
        lemma_abort(tool_name, count);
        let note = filled(ABORT_TEMPLATE@, tool_name, count);
        reveal_strlit("\n\n");
        reveal_strlit("[DUPLICATE_CALL_ABORT] '");
        reveal_strlit("\n\n[DUPLICATE_CALL_ABORT] '");
        let opening = "[DUPLICATE_CALL_ABORT] '"@ + tool_name;
        lemma_noted(output, note, opening, numeral(count));
        assert("\n\n[DUPLICATE_CALL_ABORT] '"@ + tool_name =~= "\n\n"@ + opening);
    } else if count >= nudge {
        lemma_guidance(tool_name, count);
        let note = filled(GUIDANCE_TEMPLATE@, tool_name, count);
        reveal_strlit("\n\n");
        reveal_strlit("[DUPLICATE_CALL_GUIDANCE] '");
        reveal_strlit("\n\n[DUPLICATE_CALL_GUIDANCE] '");
        let opening = "[DUPLICATE_CALL_GUIDANCE] '"@ + tool_name;
        lemma_noted(output, note, opening, numeral(count));
        assert("\n\n[DUPLICATE_CALL_GUIDANCE] '"@ + tool_name =~= "\n\n"@ + opening);
    }
}

proof fn lemma_noted(output: Seq<char>, note: Seq<char>, opening: Seq<char>, held: Seq<char>)
    requires
        opening.is_prefix_of(note),
        contains_text(note, held),
    ensures
        output.is_prefix_of(annotated(output, note)),
        ("\n\n"@ + opening).is_prefix_of(annotated(output, note).skip(output.len() as int)),
        contains_text(annotated(output, note), held),
{
    let text = annotated(output, note);
    assert(output =~= text.take(output.len() as int));
    let rest = text.skip(output.len() as int);
    assert(rest =~= "\n\n"@ + note);
    let start = "\n\n"@ + opening;
    assert(start =~= rest.take(start.len() as int)) by {
        assert(opening =~= note.take(opening.len() as int));
    }
    assert(text =~= output + "\n\n"@ + note + Seq::empty());
    lemma_holds(output + "\n\n"@, note, Seq::empty());
    lemma_holds_what_a_part_holds(text, note, held);
}

proof fn lemma_abort(tool_name: Seq<char>, count: nat)
    requires
        forall|i: int| 0 <= i < tool_name.len() ==> tool_name[i] != '%',
    ensures
        ("[DUPLICATE_CALL_ABORT] '"@ + tool_name).is_prefix_of(
            filled(ABORT_TEMPLATE@, tool_name, count),
        ),
        contains_text(filled(ABORT_TEMPLATE@, tool_name, count), numeral(count)),
{
    reveal_strlit("[DUPLICATE_CALL_ABORT] '");
    reveal_strlit("%%TOOL_NAME%%");
    reveal_strlit("%%COUNT%%");
    reveal_strlit("[DUPLICATE_CALL_ABORT] '%%TOOL_NAME%%' was called %%COUNT%% times in a row with the same arguments and gave the same result. Stop calling it and report what you have.");
    reveal_strlit("' was called %%COUNT%% times in a row with the same arguments and gave the same result. Stop calling it and report what you have.");
    let rest = "' was called %%COUNT%% times in a row with the same arguments and gave the same result. Stop calling it and report what you have."@;
    assert(ABORT_TEMPLATE@ =~= "[DUPLICATE_CALL_ABORT] '"@ + "%%TOOL_NAME%%"@ + rest);
    assert(rest.subrange(13, 22) =~= "%%COUNT%%"@);
    assert(occurs_at(rest, "%%COUNT%%"@, 13));
    lemma_no_tool_name(rest);
    lemma_note(ABORT_TEMPLATE@, "[DUPLICATE_CALL_ABORT] '"@, rest, tool_name, count);
}

proof fn lemma_guidance(tool_name: Seq<char>, count: nat)
    requires
        forall|i: int| 0 <= i < tool_name.len() ==> tool_name[i] != '%',
    ensures
        ("[DUPLICATE_CALL_GUIDANCE] '"@ + tool_name).is_prefix_of(
            filled(GUIDANCE_TEMPLATE@, tool_name, count),
        ),
        contains_text(filled(GUIDANCE_TEMPLATE@, tool_name, count), numeral(count)),
{
    reveal_strlit("[DUPLICATE_CALL_GUIDANCE] '");
    reveal_strlit("%%TOOL_NAME%%");
    reveal_strlit("%%COUNT%%");
    reveal_strlit("[DUPLICATE_CALL_GUIDANCE] '%%TOOL_NAME%%' was called %%COUNT%% times in a row with the same arguments and gave the same result. Use the result above, or change the arguments.");
    reveal_strlit("' was called %%COUNT%% times in a row with the same arguments and gave the same result. Use the result above, or change the arguments.");
    let rest = "' was called %%COUNT%% times in a row with the same arguments and gave the same result. Use the result above, or change the arguments."@;
    assert(GUIDANCE_TEMPLATE@ =~= "[DUPLICATE_CALL_GUIDANCE] '"@ + "%%TOOL_NAME%%"@ + rest);
    assert(rest.subrange(13, 22) =~= "%%COUNT%%"@);
    assert(occurs_at(rest, "%%COUNT%%"@, 13));
    lemma_no_tool_name(rest);
    lemma_note(GUIDANCE_TEMPLATE@, "[DUPLICATE_CALL_GUIDANCE] '"@, rest, tool_name, count);
}

/// A text without a capital M has no place for the tool's name.
proof fn lemma_no_tool_name(rest: Seq<char>)
    requires
        forall|i: int| 0 <= i < rest.len() ==> rest[i] != 'M',
    ensures
        !contains_text(rest, "%%TOOL_NAME%%"@),
{
    reveal_strlit("%%TOOL_NAME%%");
    if contains_text(rest, "%%TOOL_NAME%%"@) {
        let i = choose|i: int| occurs_at(rest, "%%TOOL_NAME%%"@, i);
        assert(rest.subrange(i, i + 13)[9] == "%%TOOL_NAME%%"@[9]);
        assert(rest[i + 9] == 'M');
    }
}

} // verus!
