//! What holds of every guard against repeated calls.
use super::duplicate_call_guard::{
    annotated, call_fingerprint, canonical, counted, filled, guard_step, rendered_items,
    rendered_members, CallModel, GuardModel, ABORT_TEMPLATE, GUIDANCE_TEMPLATE, REASONING_KEY,
};
use crate::json::ordering::{in_key_order, key_place, Rendered};
use crate::json::{scalar_text, Json, Member};
use crate::text::sorting::{lemma_text_le_total, lemma_text_le_transitive, text_le};
use vstd::prelude::*;

verus! {

// ---------------------------------------------------------------------------
// Outputs and counts
// ---------------------------------------------------------------------------

/// The real output always stands first in what a worker sees.
pub proof fn law_output_is_preserved(
    at: GuardModel,
    nudge: nat,
    block: nat,
    data: Option<(Seq<char>, u64)>,
    general_error: bool,
    output: Seq<char>,
)
    ensures
        output.is_prefix_of(guard_step(at, nudge, block, data, general_error, output).1),
{
    let shown = guard_step(at, nudge, block, data, general_error, output).1;
    assert(shown.subrange(0, output.len() as int) =~= output);
}

/// Escalation is final: an escalated guard stays as it is, and annotates
/// nothing.
pub proof fn law_escalation_is_final(
    at: GuardModel,
    nudge: nat,
    block: nat,
    data: Option<(Seq<char>, u64)>,
    general_error: bool,
    output: Seq<char>,
)
    requires
        at.escalated,
    ensures
        guard_step(at, nudge, block, data, general_error, output) == (at, output),
{
}

/// The guard escalates exactly with an abort: where a count reaches the block
/// threshold.
pub proof fn law_escalates_at_the_block(
    at: GuardModel,
    nudge: nat,
    block: nat,
    tool_name: Seq<char>,
    hash: u64,
    output: Seq<char>,
)
    requires
        !at.escalated,
    ensures
        guard_step(at, nudge, block, Some((tool_name, hash)), false, output).0.escalated == (counted(
            at.calls,
            hash,
            output,
        ).count >= block),
{
}

/// An error that trying again may mend changes nothing.
pub proof fn law_retryable_errors_do_not_count(
    at: GuardModel,
    nudge: nat,
    block: nat,
    data: Option<(Seq<char>, u64)>,
    output: Seq<char>,
)
    ensures
        guard_step(at, nudge, block, data, true, output) == (at, output),
{
}

/// Calls are counted apart: an output of one call leaves what is known of every
/// other call as it was.
pub proof fn law_calls_are_independent(
    at: GuardModel,
    nudge: nat,
    block: nat,
    tool_name: Seq<char>,
    hash: u64,
    general_error: bool,
    output: Seq<char>,
    other: u64,
)
    requires
        other != hash,
    ensures
        ({
            let next = guard_step(
                at,
                nudge,
                block,
                Some((tool_name, hash)),
                general_error,
                output,
            ).0.calls;
            &&& next.dom().contains(other) == at.calls.dom().contains(other)
            &&& at.calls.dom().contains(other) ==> next[other] == at.calls[other]
        }),
{
}

/// Another output starts the count over.
pub proof fn law_another_output_starts_over(calls: Map<u64, CallModel>, hash: u64, output: Seq<char>)
    requires
        calls.dom().contains(hash),
        calls[hash].last != output,
    ensures
        counted(calls, hash, output) == (CallModel { count: 1, last: output }),
{
}

/// One output that a guard saw: the guard data of its call, whether it is an
/// error that trying again may mend, and the output itself.
pub struct Seen {
    pub data: Option<(Seq<char>, u64)>,
    pub general_error: bool,
    pub output: Seq<char>,
}

impl Seen {
    /// Whether it counts for a call.
    pub open spec fn counts_for(self, hash: u64) -> bool {
        !self.general_error && (self.data matches Some((_, own)) && own == hash)
    }
}

/// What a new guard knows after it saw the outputs of a history.
pub open spec fn after(nudge: nat, block: nat, history: Seq<Seen>) -> GuardModel
    decreases history.len(),
{
    if history.len() == 0 {
        GuardModel { calls: Map::empty(), escalated: false }
    } else {
        let last = history.last();
        guard_step(
            after(nudge, block, history.drop_last()),
            nudge,
            block,
            last.data,
            last.general_error,
            last.output,
        ).0
    }
}

/// How often in a row, up to now, a call gave an output. What other calls gave
/// in between does not matter, nor do errors that trying again may mend.
pub open spec fn current_run(history: Seq<Seen>, hash: u64, output: Seq<char>) -> nat
    decreases history.len(),
{
    if history.len() == 0 {
        0
    } else if !history.last().counts_for(hash) {
        current_run(history.drop_last(), hash, output)
    } else if history.last().output == output {
        current_run(history.drop_last(), hash, output) + 1
    } else {
        0
    }
}

/// A guard that is not escalated knows of every call its last output and how
/// often in a row it was given.
proof fn lemma_counts_are_runs(nudge: nat, block: nat, history: Seq<Seen>, hash: u64)
    requires
        !after(nudge, block, history).escalated,
    ensures
        ({
            let calls = after(nudge, block, history).calls;
            if calls.dom().contains(hash) {
                &&& calls[hash].count == current_run(history, hash, calls[hash].last)
                &&& forall|output: Seq<char>|
                    output != calls[hash].last ==> #[trigger] current_run(history, hash, output) == 0
            } else {
                forall|output: Seq<char>| #[trigger] current_run(history, hash, output) == 0
            }
        }),
    decreases history.len(),
{
    if history.len() > 0 {
        lemma_counts_are_runs(nudge, block, history.drop_last(), hash);
        let before = after(nudge, block, history.drop_last());
        let calls = after(nudge, block, history).calls;
        if history.last().counts_for(hash) {
            let output = history.last().output;
            assert(calls[hash] == counted(before.calls, hash, output));
            assert(calls[hash].last == output);
            assert(current_run(history, hash, output) == current_run(
                history.drop_last(),
                hash,
                output,
            ) + 1);
        } else {
            assert(calls.dom().contains(hash) == before.calls.dom().contains(hash));
            assert(calls.dom().contains(hash) ==> calls[hash] == before.calls[hash]);
            assert forall|output: Seq<char>| #[trigger] current_run(history, hash, output)
                == current_run(history.drop_last(), hash, output) by {}
        }
    }
}

/// The stages of a repeated call, whatever the guard saw before: an output that
/// a call gives for the `n`th time in a row stands alone below the nudge
/// threshold, carries guidance with the count from there on, and from the block
/// threshold on carries the abort, which escalates the guard.
pub proof fn law_stages_of_a_repeated_call(
    nudge: nat,
    block: nat,
    history: Seq<Seen>,
    tool_name: Seq<char>,
    hash: u64,
    output: Seq<char>,
)
    requires
        !after(nudge, block, history).escalated,
    ensures
        ({
            let at = after(nudge, block, history);
            let n = current_run(history, hash, output) + 1;
            let (next, shown) = guard_step(
                at,
                nudge,
                block,
                Some((tool_name, hash)),
                false,
                output,
            );
            &&& next.escalated == (n >= block)
            &&& shown == if n >= block {
                annotated(output, filled(ABORT_TEMPLATE@, tool_name, n))
            } else if n >= nudge {
                annotated(output, filled(GUIDANCE_TEMPLATE@, tool_name, n))
            } else {
                output
            }
        }),
{
    lemma_counts_are_runs(nudge, block, history, hash);
    let at = after(nudge, block, history);
    let n = current_run(history, hash, output) + 1;
    if output.len() == 0 {
        assert(output =~= Seq::<char>::empty());
    }
    assert(counted(at.calls, hash, output).count == n);
}

// ---------------------------------------------------------------------------
// Arguments
// ---------------------------------------------------------------------------

/// Whether no two members of a list have the same key.
pub open spec fn distinct_keys(list: Seq<Rendered>) -> bool {
    forall|i: int, j: int|
        0 <= i < j < list.len() ==> (#[trigger] list[i]).key != (#[trigger] list[j]).key
}

spec fn key_lt(a: Rendered, b: Rendered) -> bool {
    text_le(a.key, b.key) && a.key != b.key
}

spec fn strictly_ordered(list: Seq<Rendered>) -> bool {
    forall|i: int, j: int| 0 <= i < j < list.len() ==> key_lt(#[trigger] list[i], #[trigger] list[j])
}

proof fn lemma_key_place(sorted: Seq<Rendered>, key: Seq<char>)
    requires
        strictly_ordered(sorted),
    ensures
        key_place(sorted, key) <= sorted.len(),
        forall|i: int|
            0 <= i < key_place(sorted, key) ==> text_le((#[trigger] sorted[i]).key, key),
        forall|i: int|
            key_place(sorted, key) <= i < sorted.len() ==> !text_le((#[trigger] sorted[i]).key, key),
    decreases sorted.len(),
{
    if sorted.len() > 0 {
        let last = sorted.last();
        if text_le(last.key, key) {
            assert forall|i: int| 0 <= i < sorted.len() implies text_le(
                (#[trigger] sorted[i]).key,
                key,
            ) by {
                if i < sorted.len() - 1 {
                    assert(key_lt(sorted[i], sorted[sorted.len() - 1]));
                    lemma_text_le_transitive(sorted[i].key, last.key, key);
                }
            }
        } else {
            let rest = sorted.drop_last();
            assert forall|i: int, j: int| 0 <= i < j < rest.len() implies key_lt(
                #[trigger] rest[i],
                #[trigger] rest[j],
            ) by {
                assert(key_lt(sorted[i], sorted[j]));
            }
            lemma_key_place(rest, key);
            let p = key_place(rest, key) as int;
            assert forall|i: int| 0 <= i < p implies text_le((#[trigger] sorted[i]).key, key) by {
                assert(sorted[i] == rest[i]);
            }
            assert forall|i: int| p <= i < sorted.len() implies !text_le(
                (#[trigger] sorted[i]).key,
                key,
            ) by {
                if i < rest.len() {
                    assert(sorted[i] == rest[i]);
                }
            }
        }
    }
}

/// Putting a list with distinct keys in order keeps its members, and each key
/// stands before every later one.
proof fn lemma_in_key_order(list: Seq<Rendered>)
    requires
        distinct_keys(list),
    ensures
        strictly_ordered(in_key_order(list)),
        in_key_order(list).len() == list.len(),
        forall|r: Rendered| #[trigger] in_key_order(list).contains(r) == list.contains(r),
    decreases list.len(),
{
    if list.len() > 0 {
        let init = list.drop_last();
        let last = list.last();
        assert forall|i: int, j: int| 0 <= i < j < init.len() implies (#[trigger] init[i]).key != (
        #[trigger] init[j]).key by {
            assert(list[i].key != list[j].key);
        }
        lemma_in_key_order(init);
        let o = in_key_order(init);
        lemma_key_place(o, last.key);
        let p = key_place(o, last.key) as int;
        let r = in_key_order(list);
        assert(r == o.insert(p, last));
        assert forall|i: int| 0 <= i < o.len() implies (#[trigger] o[i]).key != last.key by {
            assert(o.contains(o[i]));
            assert(init.contains(o[i]));
            let k = init.index_of(o[i]);
            assert(list[k] == o[i]);
            assert(list[k].key != list[list.len() - 1].key);
        }
        assert forall|i: int, j: int| 0 <= i < j < r.len() implies key_lt(
            #[trigger] r[i],
            #[trigger] r[j],
        ) by {
            if j < p {
                assert(key_lt(o[i], o[j]));
            } else if j == p {
                assert(r[i] == o[i]);
            } else if i == p {
                assert(r[j] == o[j - 1]);
                lemma_text_le_total(o[j - 1].key, last.key);
            } else if i < p {
                assert(key_lt(o[i], o[j - 1]));
            } else {
                assert(key_lt(o[i - 1], o[j - 1]));
            }
        }
        assert forall|x: Rendered| #[trigger] r.contains(x) == list.contains(x) by {
            if r.contains(x) {
                let k = r.index_of(x);
                if k < p {
                    assert(o[k] == x);
                    assert(o.contains(x));
                    assert(init.contains(x));
                    let m = init.index_of(x);
                    assert(list[m] == x);
                } else if k == p {
                    assert(list[list.len() - 1] == x);
                } else {
                    assert(o[k - 1] == x);
                    assert(o.contains(x));
                    assert(init.contains(x));
                    let m = init.index_of(x);
                    assert(list[m] == x);
                }
            }
            if list.contains(x) {
                let m = list.index_of(x);
                if m == list.len() - 1 {
                    assert(r[p] == x);
                } else {
                    assert(init[m] == x);
                    assert(init.contains(x));
                    assert(o.contains(x));
                    let k = o.index_of(x);
                    if k < p {
                        assert(r[k] == x);
                    } else {
                        assert(r[k + 1] == x);
                    }
                }
            }
        }
    }
}

proof fn lemma_ordered_unique(a: Seq<Rendered>, b: Seq<Rendered>)
    requires
        strictly_ordered(a),
        strictly_ordered(b),
        forall|r: Rendered| #[trigger] a.contains(r) == b.contains(r),
    ensures
        a == b,
    decreases a.len(),
{
    if a.len() == 0 {
        if b.len() > 0 {
            assert(b.contains(b[0]));
            assert(a.contains(b[0]));
        }
        assert(a =~= b);
    } else {
        assert(a.contains(a[0]));
        assert(b.contains(a[0]));
        let j = b.index_of(a[0]);
        assert(b.contains(b[0]));
        assert(a.contains(b[0]));
        let i = a.index_of(b[0]);
        lemma_text_le_total(a[0].key, b[0].key);
        if i > 0 && j > 0 {
            assert(key_lt(a[0], a[i]));
            assert(key_lt(b[0], b[j]));
        }
        assert(a[0] == b[0]);
        let at = a.drop_first();
        let bt = b.drop_first();
        assert forall|x: int, y: int| 0 <= x < y < at.len() implies key_lt(
            #[trigger] at[x],
            #[trigger] at[y],
        ) by {
            assert(key_lt(a[x + 1], a[y + 1]));
        }
        assert forall|x: int, y: int| 0 <= x < y < bt.len() implies key_lt(
            #[trigger] bt[x],
            #[trigger] bt[y],
        ) by {
            assert(key_lt(b[x + 1], b[y + 1]));
        }
        assert forall|r: Rendered| #[trigger] at.contains(r) == bt.contains(r) by {
            if at.contains(r) {
                let k = at.index_of(r);
                assert(a[k + 1] == r);
                assert(a.contains(r));
                assert(b.contains(r));
                let m = b.index_of(r);
                assert(key_lt(a[0], a[k + 1]));
                assert(m != 0);
                assert(bt[m - 1] == r);
            }
            if bt.contains(r) {
                let k = bt.index_of(r);
                assert(b[k + 1] == r);
                assert(b.contains(r));
                assert(a.contains(r));
                let m = a.index_of(r);
                assert(key_lt(b[0], b[k + 1]));
                assert(m != 0);
                assert(at[m - 1] == r);
            }
        }
        lemma_ordered_unique(at, bt);
        assert(a =~= seq![a[0]] + at);
        assert(b =~= seq![b[0]] + bt);
    }
}

/// Whether no two members of an object have the same key.
pub open spec fn is_object(members: Seq<Member>) -> bool {
    forall|i: int, j: int|
        0 <= i < j < members.len() ==> (#[trigger] members[i]).key@ != (#[trigger] members[j]).key@
}

spec fn rendered_of(m: Member) -> Rendered {
    Rendered { key: m.key@, text: m.key@ + ":"@ + canonical(m.value) }
}

proof fn lemma_rendered_members(members: Seq<Member>, n: int)
    requires
        0 <= n <= members.len(),
        is_object(members),
    ensures
        distinct_keys(rendered_members(members, n)),
        forall|r: Rendered| #[trigger]
            rendered_members(members, n).contains(r) == (exists|i: int|
                0 <= i < n && #[trigger] members[i].key@ != REASONING_KEY@ && rendered_of(members[i])
                    == r),
    decreases n,
{
    reveal_with_fuel(rendered_members, 2);
    if n > 0 {
        lemma_rendered_members(members, n - 1);
        let before = rendered_members(members, n - 1);
        let all = rendered_members(members, n);
        let m = members[n - 1];
        if m.key@ != REASONING_KEY@ {
            assert(all == before.push(rendered_of(m)));
            assert forall|i: int, j: int| 0 <= i < j < all.len() implies (#[trigger] all[i]).key != (
            #[trigger] all[j]).key by {
                if j == all.len() - 1 {
                    assert(before.contains(all[i]));
                    let k = choose|k: int|
                        0 <= k < n - 1 && #[trigger] members[k].key@ != REASONING_KEY@
                            && rendered_of(members[k]) == all[i];
                    assert(members[k].key@ != members[n - 1].key@);
                } else {
                    assert(before[i].key != before[j].key);
                }
            }
        }
        assert forall|r: Rendered| #[trigger] all.contains(r) == (exists|i: int|
            0 <= i < n && #[trigger] members[i].key@ != REASONING_KEY@ && rendered_of(members[i])
                == r) by {
            if all.contains(r) {
                let k = all.index_of(r);
                if k < before.len() {
                    assert(before[k] == r);
                    assert(before.contains(r));
                } else {
                    assert(members[n - 1].key@ != REASONING_KEY@);
                }
            }
            if exists|i: int|
                0 <= i < n && #[trigger] members[i].key@ != REASONING_KEY@ && rendered_of(members[i])
                    == r {
                let i = choose|i: int|
                    0 <= i < n && #[trigger] members[i].key@ != REASONING_KEY@ && rendered_of(
                        members[i],
                    ) == r;
                if i < n - 1 {
                    assert(before.contains(r));
                    let k = before.index_of(r);
                    assert(all[k] == r);
                } else {
                    assert(all[all.len() - 1] == r);
                }
            }
        }
    }
}

/// Whether every member of `a`, apart from the reasoning, has a member of `b`
/// with its key and a value of the same canonical text.
pub open spec fn is_covered_by(a: Seq<Member>, b: Seq<Member>) -> bool {
    forall|i: int|
        0 <= i < a.len() && (#[trigger] a[i]).key@ != REASONING_KEY@ ==> exists|j: int|
            0 <= j < b.len() && (#[trigger] b[j]).key@ == a[i].key@ && canonical(b[j].value)
                == canonical(a[i].value)
}

proof fn lemma_covered(a: Seq<Member>, b: Seq<Member>, r: Rendered)
    requires
        is_object(a),
        is_object(b),
        is_covered_by(a, b),
        rendered_members(a, a.len() as int).contains(r),
    ensures
        rendered_members(b, b.len() as int).contains(r),
{
    lemma_rendered_members(a, a.len() as int);
    lemma_rendered_members(b, b.len() as int);
    let i = choose|i: int|
        0 <= i < a.len() && #[trigger] a[i].key@ != REASONING_KEY@ && rendered_of(a[i]) == r;
    let j = choose|j: int|
        0 <= j < b.len() && (#[trigger] b[j]).key@ == a[i].key@ && canonical(b[j].value)
            == canonical(a[i].value);
    assert(b[j].key@ != REASONING_KEY@);
    assert(rendered_of(b[j]) == r);
}

/// Objects whose members, apart from the reasoning, have the same canonical
/// texts have the same canonical text.
proof fn lemma_objects_by_content(a: Vec<Member>, b: Vec<Member>)
    requires
        is_object(a@),
        is_object(b@),
        is_covered_by(a@, b@),
        is_covered_by(b@, a@),
    ensures
        canonical(Json::Object(a)) == canonical(Json::Object(b)),
{
    let x = rendered_members(a@, a@.len() as int);
    let y = rendered_members(b@, b@.len() as int);
    lemma_rendered_members(a@, a@.len() as int);
    lemma_rendered_members(b@, b@.len() as int);
    lemma_in_key_order(x);
    lemma_in_key_order(y);
    assert forall|r: Rendered| #[trigger] in_key_order(x).contains(r) == in_key_order(y).contains(
        r,
    ) by {
        assert(in_key_order(y).contains(r) == y.contains(r));
        if x.contains(r) {
            lemma_covered(a@, b@, r);
        }
        if y.contains(r) {
            lemma_covered(b@, a@, r);
        }
    }
    lemma_ordered_unique(in_key_order(x), in_key_order(y));
}

/// Whether two values are the same apart from the reasoning and the order of
/// members, at every depth. A key stands once in an object.
pub open spec fn same_content(a: Json, b: Json) -> bool
    decreases a,
{
    match (a, b) {
        (Json::Object(x), Json::Object(y)) => {
            &&& is_object(x@)
            &&& is_object(y@)
            &&& forall|i: int|
                0 <= i < x@.len() && (#[trigger] x@[i]).key@ != REASONING_KEY@ ==> exists|j: int|
                    0 <= j < y@.len() && (#[trigger] y@[j]).key@ == x@[i].key@ && same_content(
                        x@[i].value,
                        y@[j].value,
                    )
            &&& forall|j: int|
                0 <= j < y@.len() && (#[trigger] y@[j]).key@ != REASONING_KEY@ ==> exists|i: int|
                    0 <= i < x@.len() && (#[trigger] x@[i]).key@ == y@[j].key@ && same_content(
                        x@[i].value,
                        y@[j].value,
                    )
        },
        (Json::Array(x), Json::Array(y)) => {
            &&& x@.len() == y@.len()
            &&& forall|i: int| 0 <= i < x@.len() ==> same_content(#[trigger] x@[i], y@[i])
        },
        _ => a@ == b@,
    }
}

proof fn lemma_items_by_content(a: Seq<Json>, b: Seq<Json>, n: int)
    requires
        0 <= n <= a.len(),
        a.len() == b.len(),
        forall|i: int| 0 <= i < a.len() ==> canonical(#[trigger] a[i]) == canonical(b[i]),
    ensures
        rendered_items(a, n) == rendered_items(b, n),
    decreases n,
{
    reveal_with_fuel(rendered_items, 2);
    if n > 0 {
        lemma_items_by_content(a, b, n - 1);
    }
}

proof fn lemma_content_of_objects(x: Vec<Member>, y: Vec<Member>)
    requires
        same_content(Json::Object(x), Json::Object(y)),
    ensures
        canonical(Json::Object(x)) == canonical(Json::Object(y)),
    decreases Json::Object(x), 0nat,
{
    assert forall|i: int| 0 <= i < x@.len() && (#[trigger] x@[i]).key@
        != REASONING_KEY@ implies exists|j: int|
        0 <= j < y@.len() && (#[trigger] y@[j]).key@ == x@[i].key@ && canonical(y@[j].value)
            == canonical(x@[i].value) by {
        let j = choose|j: int|
            0 <= j < y@.len() && (#[trigger] y@[j]).key@ == x@[i].key@ && same_content(
                x@[i].value,
                y@[j].value,
            );
        lemma_same_content(x@[i].value, y@[j].value);
    }
    assert forall|j: int| 0 <= j < y@.len() && (#[trigger] y@[j]).key@
        != REASONING_KEY@ implies exists|i: int|
        0 <= i < x@.len() && (#[trigger] x@[i]).key@ == y@[j].key@ && canonical(x@[i].value)
            == canonical(y@[j].value) by {
        let i = choose|i: int|
            0 <= i < x@.len() && (#[trigger] x@[i]).key@ == y@[j].key@ && same_content(
                x@[i].value,
                y@[j].value,
            );
        lemma_same_content(x@[i].value, y@[j].value);
    }
    lemma_objects_by_content(x, y);
}

proof fn lemma_content_of_arrays(x: Vec<Json>, y: Vec<Json>)
    requires
        same_content(Json::Array(x), Json::Array(y)),
    ensures
        canonical(Json::Array(x)) == canonical(Json::Array(y)),
    decreases Json::Array(x), 0nat,
{
    assert forall|i: int| 0 <= i < x@.len() implies canonical(#[trigger] x@[i]) == canonical(
        y@[i],
    ) by {
        lemma_same_content(x@[i], y@[i]);
    }
    lemma_items_by_content(x@, y@, x@.len() as int);
}

proof fn lemma_same_content(a: Json, b: Json)
    requires
        same_content(a, b),
    ensures
        canonical(a) == canonical(b),
    decreases a, 1nat,
{
    match (a, b) {
        (Json::Object(x), Json::Object(y)) => {
            lemma_content_of_objects(x, y);
        },
        (Json::Array(x), Json::Array(y)) => {
            lemma_content_of_arrays(x, y);
        },
        _ => {
            assert(scalar_text(a) == scalar_text(b));
        },
    }
}

/// Arguments that are the same apart from the reasoning and the order of
/// members, at every depth, have the same canonical text, and so every tool's
/// call with them has the same fingerprint.
pub proof fn law_arguments_by_content(a: Json, b: Json)
    requires
        same_content(a, b),
    ensures
        canonical(a) == canonical(b),
        forall|tool_name: Seq<char>| #[trigger]
            call_fingerprint(tool_name, a) == call_fingerprint(tool_name, b),
{
    lemma_same_content(a, b);
}

} // verus!
