//! The order of texts, and sorting.
use super::to_chars;
use super::trim::views;
use vstd::prelude::*;

verus! {

/// The order of texts: by the first character in which they differ, a prefix
/// before what it begins. It is the order of the UTF-8 bytes too.
pub open spec fn text_le(a: Seq<char>, b: Seq<char>) -> bool
    decreases a.len(),
{
    if a.len() == 0 {
        true
    } else if b.len() == 0 {
        false
    } else if a[0] == b[0] {
        text_le(a.drop_first(), b.drop_first())
    } else {
        (a[0] as u32) < (b[0] as u32)
    }
}

/// Whether `a` stands at or before `b`.
pub fn le(a: &str, b: &str) -> (r: bool)
    ensures
        r == text_le(a@, b@),
{
    let x = to_chars(a);
    let y = to_chars(b);
    let mut i: usize = 0;
    assert(a@.skip(0) =~= a@);
    assert(b@.skip(0) =~= b@);
    while i < x.len() && i < y.len() && x[i] == y[i]
        invariant
            x@ == a@,
            y@ == b@,
            i <= x.len(),
            i <= y.len(),
            text_le(a@, b@) == text_le(a@.skip(i as int), b@.skip(i as int)),
        decreases x.len() - i,
    {
        assert(a@.skip(i as int)[0] == a@[i as int]);
        assert(b@.skip(i as int)[0] == b@[i as int]);
        assert(a@.skip(i as int).drop_first() =~= a@.skip(i + 1));
        assert(b@.skip(i as int).drop_first() =~= b@.skip(i + 1));
        i = i + 1;
    }
    if i == x.len() {
        true
    } else if i == y.len() {
        false
    } else {
        assert(a@.skip(i as int)[0] == a@[i as int]);
        assert(b@.skip(i as int)[0] == b@[i as int]);
        (x[i] as u32) < (y[i] as u32)
    }
}

pub proof fn lemma_text_le_total(a: Seq<char>, b: Seq<char>)
    ensures
        text_le(a, b) || text_le(b, a),
        text_le(a, b) && text_le(b, a) ==> a == b,
    decreases a.len(),
{
    if a.len() > 0 && b.len() > 0 && a[0] == b[0] {
        lemma_text_le_total(a.drop_first(), b.drop_first());
        if text_le(a, b) && text_le(b, a) {
            assert(a =~= seq![a[0]] + a.drop_first());
            assert(b =~= seq![b[0]] + b.drop_first());
        }
    } else if a.len() == 0 && b.len() == 0 {
        assert(a =~= b);
    } else if a.len() > 0 && b.len() > 0 {
        vstd::utf8::char_u32_cast(a[0], a[0] as u32);
        vstd::utf8::char_u32_cast(b[0], b[0] as u32);
    }
}

pub proof fn lemma_text_le_transitive(a: Seq<char>, b: Seq<char>, c: Seq<char>)
    requires
        text_le(a, b),
        text_le(b, c),
    ensures
        text_le(a, c),
    decreases a.len(),
{
    if a.len() > 0 && b.len() > 0 && c.len() > 0 && a[0] == b[0] && b[0] == c[0] {
        lemma_text_le_transitive(a.drop_first(), b.drop_first(), c.drop_first());
    }
}

/// Whether each text stands at or before every later one.
pub open spec fn in_order(parts: Seq<Seq<char>>) -> bool {
    forall|i: int, j: int|
        0 <= i <= j < parts.len() ==> text_le(#[trigger] parts[i], #[trigger] parts[j])
}

/// Whether `b` holds the texts of `a` in order.
pub open spec fn is_sorting_of(b: Seq<Seq<char>>, a: Seq<Seq<char>>) -> bool {
    in_order(b) && b.to_multiset() == a.to_multiset()
}

/// Sort strings.
pub fn sort(parts: Vec<String>) -> (r: Vec<String>)
    ensures
        is_sorting_of(views(r@), views(parts@)),
{
    let mut out: Vec<String> = Vec::new();
    let ghost given = views(parts@);
    let mut i: usize = 0;
    assert(views(out@) =~= Seq::<Seq<char>>::empty());
    assert(given.take(0) =~= Seq::<Seq<char>>::empty());
    while i < parts.len()
        invariant
            i <= parts.len(),
            given == views(parts@),
            is_sorting_of(views(out@), given.take(i as int)),
        decreases parts.len() - i,
    {
        let item = parts[i].clone();
        let ghost sorted = views(out@);
        let mut k: usize = 0;
        while k < out.len() && le(out[k].as_str(), item.as_str())
            invariant
                sorted == views(out@),
                k <= out.len(),
                forall|j: int| 0 <= j < k ==> text_le(#[trigger] sorted[j], item@),
            decreases out.len() - k,
        {
            k = k + 1;
        }
        out.insert(k, item);
        proof {
            let added = views(out@);
            assert(added =~= sorted.insert(k as int, item@));
            assert forall|a: int, b: int| 0 <= a <= b < added.len() implies text_le(
                #[trigger] added[a],
                #[trigger] added[b],
            ) by {
                lemma_text_le_total(item@, item@);
                if k < sorted.len() {
                    lemma_text_le_total(sorted[k as int], item@);
                }
                if a < k && b == k {
                    assert(text_le(sorted[a], item@));
                } else if a == k && b > k {
                    assert(text_le(sorted[k as int], sorted[b - 1]));
                    lemma_text_le_transitive(item@, sorted[k as int], sorted[b - 1]);
                } else if a < k && b > k {
                    assert(text_le(sorted[a], sorted[b - 1]));
                } else if a > k {
                    assert(text_le(sorted[a - 1], sorted[b - 1]));
                } else if b < k {
                    assert(text_le(sorted[a], sorted[b]));
                }
            }
            broadcast use vstd::seq_lib::group_to_multiset_ensures;
            assert(added[k as int] == item@);
            assert(added.contains(item@));
            assert(added.remove(k as int) =~= sorted);
            assert(sorted.to_multiset() =~= added.to_multiset().remove(item@));
            assert(added.to_multiset() =~= sorted.to_multiset().insert(item@));
            assert(given.take(i + 1) =~= given.take(i as int).push(item@));
        }
        i = i + 1;
    }
    assert(given.take(i as int) =~= given);
    out
}

/// There is one sorting of given texts only.
pub proof fn lemma_sorting_unique(a: Seq<Seq<char>>, b: Seq<Seq<char>>)
    requires
        in_order(a),
        in_order(b),
        a.to_multiset() == b.to_multiset(),
    ensures
        a == b,
    decreases a.len(),
{
    broadcast use vstd::seq_lib::group_to_multiset_ensures;

    assert(a.len() == a.to_multiset().len());
    assert(b.len() == b.to_multiset().len());
    if a.len() == 0 {
        assert(a =~= b);
    } else {
        let x = a[0];
        let y = b[0];
        assert(a.contains(x));
        assert(b.contains(y));
        assert(b.to_multiset().count(x) > 0);
        assert(a.to_multiset().count(y) > 0);
        assert(b.contains(x));
        assert(a.contains(y));
        let i = choose|i: int| 0 <= i < b.len() && b[i] == x;
        let j = choose|j: int| 0 <= j < a.len() && a[j] == y;
        assert(text_le(b[0], b[i]));
        assert(text_le(a[0], a[j]));
        lemma_text_le_total(x, y);
        let at = a.drop_first();
        let bt = b.drop_first();
        assert(at =~= a.remove(0));
        assert(bt =~= b.remove(0));
        assert(at.to_multiset() =~= a.to_multiset().remove(x));
        assert(bt.to_multiset() =~= b.to_multiset().remove(x));
        lemma_sorting_unique(at, bt);
        assert(a =~= seq![x] + at);
        assert(b =~= seq![x] + bt);
    }
}

/// A text has a place in every list that is in order.
proof fn lemma_has_a_place(s: Seq<Seq<char>>, x: Seq<char>) -> (k: int)
    requires
        in_order(s),
    ensures
        0 <= k <= s.len(),
        in_order(s.insert(k, x)),
    decreases s.len(),
{
    if s.len() == 0 {
        lemma_text_le_total(x, x);
        0
    } else if text_le(s.last(), x) {
        let k = s.len() as int;
        let t = s.insert(k, x);
        assert forall|i: int, j: int| 0 <= i <= j < t.len() implies text_le(
            #[trigger] t[i],
            #[trigger] t[j],
        ) by {
            if j == k {
                if i < k {
                    lemma_text_le_transitive(s[i], s.last(), x);
                } else {
                    lemma_text_le_total(x, x);
                }
            }
        }
        k
    } else {
        let before = s.drop_last();
        let k = lemma_has_a_place(before, x);
        let t = s.insert(k, x);
        lemma_text_le_total(s.last(), x);
        assert(t =~= before.insert(k, x).push(s.last()));
        assert forall|i: int, j: int| 0 <= i <= j < t.len() implies text_le(
            #[trigger] t[i],
            #[trigger] t[j],
        ) by {
            let u = before.insert(k, x);
            if j < u.len() {
                assert(text_le(u[i], u[j]));
            } else if i == j {
                lemma_text_le_total(s.last(), s.last());
            } else if i == k {
                assert(t[i] == x);
            } else {
                let p = if i < k {
                    i
                } else {
                    i - 1
                };
                assert(t[i] == s[p]);
                assert(text_le(s[p], s[s.len() - 1]));
            }
        }
        k
    }
}

/// Every list of texts can be put in order.
pub proof fn lemma_sorting_exists(parts: Seq<Seq<char>>) -> (r: Seq<Seq<char>>)
    ensures
        is_sorting_of(r, parts),
    decreases parts.len(),
{
    broadcast use vstd::seq_lib::group_to_multiset_ensures;

    if parts.len() == 0 {
        parts
    } else {
        let before = lemma_sorting_exists(parts.drop_last());
        let k = lemma_has_a_place(before, parts.last());
        vstd::seq_lib::to_multiset_insert(before, k, parts.last());
        assert(parts =~= parts.drop_last().push(parts.last()));
        before.insert(k, parts.last())
    }
}

} // verus!
