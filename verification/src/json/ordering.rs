//! Members of an object in the order of their keys.
use crate::text::sorting::{le, text_le};
use crate::text::trim::views;
use vstd::prelude::*;

verus! {

/// A key with the text of its member.
pub struct Rendered {
    pub key: Seq<char>,
    pub text: Seq<char>,
}

/// How many leading places hold keys at or before `key`, counted from the end
/// of a list in order.
pub open spec fn key_place(sorted: Seq<Rendered>, key: Seq<char>) -> nat
    decreases sorted.len(),
{
    if sorted.len() == 0 {
        0
    } else if text_le(sorted.last().key, key) {
        sorted.len()
    } else {
        key_place(sorted.drop_last(), key)
    }
}

/// The list in the order of its keys; equal keys stay as they were.
pub open spec fn in_key_order(list: Seq<Rendered>) -> Seq<Rendered>
    decreases list.len(),
{
    if list.len() == 0 {
        Seq::empty()
    } else {
        let before = in_key_order(list.drop_last());
        before.insert(key_place(before, list.last().key) as int, list.last())
    }
}

/// The texts of a list.
pub open spec fn rendered_texts(list: Seq<Rendered>) -> Seq<Seq<char>> {
    Seq::new(list.len(), |i: int| list[i].text)
}

/// A key with the text of its member, while a list is being put in order.
pub struct RenderedText {
    pub key: String,
    pub text: String,
}

/// The keys and texts of a list.
pub open spec fn rendered_views(list: Seq<RenderedText>) -> Seq<Rendered> {
    Seq::new(list.len(), |i: int| Rendered { key: list[i].key@, text: list[i].text@ })
}

/// Put a member into a list that is in the order of its keys.
pub fn insert_in_order(list: &mut Vec<RenderedText>, item: RenderedText)
    ensures
        rendered_views(final(list)@) == rendered_views(old(list)@).insert(
            key_place(rendered_views(old(list)@), item.key@) as int,
            Rendered { key: item.key@, text: item.text@ },
        ),
{
    let ghost sorted = rendered_views(list@);
    let mut k: usize = list.len();
    assert(sorted.take(k as int) =~= sorted);
    while k > 0 && !le(list[k - 1].key.as_str(), item.key.as_str())
        invariant
            k <= list@.len(),
            sorted == rendered_views(list@),
            key_place(sorted, item.key@) == key_place(sorted.take(k as int), item.key@),
        decreases k,
    {
        assert(sorted.take(k as int).last() == sorted[k - 1]);
        assert(sorted.take(k as int).drop_last() =~= sorted.take(k - 1));
        k = k - 1;
    }
    proof {
        if k > 0 {
            assert(sorted.take(k as int).last() == sorted[k - 1]);
        }
        assert(key_place(sorted, item.key@) == k);
    }
    let ghost added = Rendered { key: item.key@, text: item.text@ };
    list.insert(k, item);
    assert(rendered_views(list@) =~= sorted.insert(k as int, added));
}

/// The texts of a list.
pub fn texts_of(list: &Vec<RenderedText>) -> (r: Vec<String>)
    ensures
        views(r@) == rendered_texts(rendered_views(list@)),
{
    let mut r: Vec<String> = Vec::new();
    for i in 0..list.len()
        invariant
            r.len() == i,
            forall|j: int| 0 <= j < i ==> (#[trigger] r@[j])@ == list@[j].text@,
    {
        r.push(list[i].text.clone());
    }
    r
}

} // verus!
