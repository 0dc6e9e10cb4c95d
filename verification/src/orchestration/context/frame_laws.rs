//! What holds of every prior-work frame.
use super::frame::{
    admit_in_order, admitted, direct_places, entries_cost, frame_cost, insertion_place, kept_count,
    kept_entries, nearest_first, token_cost, PriorWorkEntry, FRAME_SEPARATOR,
};
use vstd::prelude::*;

verus! {

/// Whether the entry at place `a` is admitted before the one at place `b`: it
/// is nearer, or as near and earlier in the plan.
pub open spec fn before(entries: Seq<PriorWorkEntry>, a: int, b: int) -> bool {
    let da = entries[a].relation.far()->0;
    let db = entries[b].relation.far()->0;
    da < db || (da == db && a < b)
}

/// Whether an order lists places of transitive ancestors among the first `n`,
/// each before every later one.
pub open spec fn is_order_of(entries: Seq<PriorWorkEntry>, order: Seq<int>, n: int) -> bool {
    &&& forall|k: int|
        0 <= k < order.len() ==> {
            &&& 0 <= #[trigger] order[k] < n
            &&& entries[order[k]].relation.far() is Some
        }
    &&& forall|j: int, k: int|
        0 <= j < k < order.len() ==> before(entries, #[trigger] order[j], #[trigger] order[k])
}

proof fn lemma_insertion_place(
    entries: Seq<PriorWorkEntry>,
    order: Seq<int>,
    n: int,
    distance: usize,
)
    requires
        is_order_of(entries, order, n),
    ensures
        insertion_place(entries, order, distance) <= order.len(),
        forall|k: int|
            0 <= k < insertion_place(entries, order, distance)
                ==> entries[#[trigger] order[k]].relation.far()->0 <= distance,
        forall|k: int|
            insertion_place(entries, order, distance) <= k < order.len()
                ==> entries[#[trigger] order[k]].relation.far()->0 > distance,
    decreases order.len(),
{
    if order.len() > 0 {
        let last = order.last();
        if entries[last].relation.far()->0 <= distance {
            assert forall|k: int| 0 <= k < order.len() implies entries[#[trigger] order[k]].relation.far()->0
                <= distance by {
                if k < order.len() - 1 {
                    assert(before(entries, order[k], order[order.len() - 1]));
                }
            }
        } else {
            let rest = order.drop_last();
            assert(is_order_of(entries, rest, n)) by {
                assert forall|j: int, k: int| 0 <= j < k < rest.len() implies before(
                    entries,
                    #[trigger] rest[j],
                    #[trigger] rest[k],
                ) by {
                    assert(before(entries, order[j], order[k]));
                }
                assert forall|k: int| 0 <= k < rest.len() implies {
                    &&& 0 <= #[trigger] rest[k] < n
                    &&& entries[rest[k]].relation.far() is Some
                } by {
                    assert(rest[k] == order[k]);
                }
            }
            lemma_insertion_place(entries, rest, n, distance);
            let p = insertion_place(entries, rest, distance) as int;
            assert forall|k: int| 0 <= k < p implies entries[#[trigger] order[k]].relation.far()->0
                <= distance by {
                assert(order[k] == rest[k]);
            }
            assert forall|k: int| p <= k < order.len() implies entries[#[trigger] order[k]].relation.far()->0
                > distance by {
                if k < rest.len() {
                    assert(order[k] == rest[k]);
                }
            }
        }
    }
}

/// Transitive ancestors are considered nearest first, and in plan order at one
/// distance; every one of them is considered, and nothing else is.
pub proof fn law_nearest_first(entries: Seq<PriorWorkEntry>, n: int)
    requires
        0 <= n <= entries.len(),
    ensures
        is_order_of(entries, nearest_first(entries, n), n),
        forall|i: int|
            0 <= i < n && entries[i].relation.far() is Some ==> #[trigger] nearest_first(
                entries,
                n,
            ).contains(i),
    decreases n,
{
    if n > 0 {
        law_nearest_first(entries, n - 1);
        let o = nearest_first(entries, n - 1);
        let r = nearest_first(entries, n);
        match entries[n - 1].relation.far() {
            None => {},
            Some(d) => {
                lemma_insertion_place(entries, o, n - 1, d);
                let p = insertion_place(entries, o, d) as int;
                assert(r == o.insert(p, n - 1));
                assert forall|k: int| 0 <= k < r.len() implies {
                    &&& 0 <= #[trigger] r[k] < n
                    &&& entries[r[k]].relation.far() is Some
                } by {
                    if k < p {
                        assert(r[k] == o[k]);
                    } else if k > p {
                        assert(r[k] == o[k - 1]);
                    }
                }
                assert forall|j: int, k: int| 0 <= j < k < r.len() implies before(
                    entries,
                    #[trigger] r[j],
                    #[trigger] r[k],
                ) by {
                    if k < p {
                        assert(before(entries, o[j], o[k]));
                    } else if k == p {
                        assert(r[j] == o[j]);
                        assert(0 <= o[j] < n - 1);
                    } else if j == p {
                        assert(r[k] == o[k - 1]);
                    } else if j < p {
                        assert(before(entries, o[j], o[k - 1]));
                    } else {
                        assert(before(entries, o[j - 1], o[k - 1]));
                    }
                }
                assert forall|i: int| 0 <= i < n && entries[i].relation.far() is Some implies
                    #[trigger] r.contains(i) by {
                    if i == n - 1 {
                        assert(r[p] == i);
                    } else {
                        assert(o.contains(i));
                        let k = o.index_of(i);
                        if k < p {
                            assert(r[k] == i);
                        } else {
                            assert(r[k + 1] == i);
                        }
                    }
                }
            },
        }
        if entries[n - 1].relation.far() is None {
            assert forall|k: int| 0 <= k < r.len() implies 0 <= #[trigger] r[k] < n by {
                assert(0 <= o[k] < n - 1);
            }
            assert forall|i: int| 0 <= i < n && entries[i].relation.far() is Some implies
                #[trigger] r.contains(i) by {
                assert(o.contains(i));
            }
        }
    }
}

proof fn lemma_insert_kept(entries: Seq<PriorWorkEntry>, kept: Set<int>, i: int, n: int)
    requires
        0 <= i,
        !kept.contains(i),
    ensures
        entries_cost(entries, kept.insert(i), n) == entries_cost(entries, kept, n) + (if i < n {
            token_cost(entries[i].text())
        } else {
            0
        }),
        kept_count(kept.insert(i), n) == kept_count(kept, n) + (if i < n {
            1int
        } else {
            0
        }),
        kept_count(kept, n) >= 0,
    decreases n,
{
    if n > 0 {
        lemma_insert_kept(entries, kept, i, n - 1);
    }
}

proof fn lemma_more_kept(entries: Seq<PriorWorkEntry>, a: Set<int>, b: Set<int>, n: int)
    requires
        a.subset_of(b),
    ensures
        entries_cost(entries, a, n) <= entries_cost(entries, b, n),
        0 <= kept_count(a, n) <= kept_count(b, n),
    decreases n,
{
    if n > 0 {
        lemma_more_kept(entries, a, b, n - 1);
    }
}

proof fn lemma_frame_cost_monotone(entries: Seq<PriorWorkEntry>, a: Set<int>, b: Set<int>)
    requires
        a.subset_of(b),
    ensures
        frame_cost(entries, a) <= frame_cost(entries, b),
{
    let n = entries.len() as int;
    lemma_more_kept(entries, a, b, n);
    let s = token_cost(FRAME_SEPARATOR@);
    let x = if kept_count(a, n) > 0 {
        kept_count(a, n) - 1
    } else {
        0
    };
    let y = if kept_count(b, n) > 0 {
        kept_count(b, n) - 1
    } else {
        0
    };
    assert(s * x <= s * y) by (nonlinear_arith)
        requires
            0 <= s,
            0 <= x <= y,
    ;
}

/// What the admission of the first `k` places of the order keeps true: it is
/// accounted for exactly, it keeps the direct floor, and it takes places of
/// the order only.
proof fn lemma_admission(entries: Seq<PriorWorkEntry>, k: int, budget: int)
    requires
        0 <= k <= nearest_first(entries, entries.len() as int).len(),
    ensures
        ({
            let order = nearest_first(entries, entries.len() as int);
            let at = admit_in_order(entries, order, k, budget);
            &&& at.cost == frame_cost(entries, at.kept)
            &&& at.any == (kept_count(at.kept, entries.len() as int) > 0)
            &&& direct_places(entries).subset_of(at.kept)
            &&& forall|i: int| #[trigger]
                at.kept.contains(i) ==> direct_places(entries).contains(i) || exists|j: int|
                    0 <= j < k && order[j] == i
            &&& at.cost <= budget || at.kept == direct_places(entries)
        }),
    decreases k,
{
    let n = entries.len() as int;
    let order = nearest_first(entries, n);
    law_nearest_first(entries, n);
    if k > 0 {
        lemma_admission(entries, k - 1, budget);
        let was = admit_in_order(entries, order, k - 1, budget);
        let at = admit_in_order(entries, order, k, budget);
        let i = order[k - 1];
        assert(entries[i].relation.far() is Some);
        assert(!was.kept.contains(i)) by {
            if was.kept.contains(i) {
                let j = choose|j: int| 0 <= j < k - 1 && order[j] == i;
                assert(before(entries, order[j], order[k - 1]));
            }
        }
        lemma_insert_kept(entries, was.kept, i, n);
        lemma_more_kept(entries, was.kept, was.kept, n);
        let s = token_cost(FRAME_SEPARATOR@);
        let c = kept_count(was.kept, n);
        assert(c > 0 ==> s * c == s * (c - 1) + s) by (nonlinear_arith);
        assert(c == 0 ==> s * 0 == 0) by (nonlinear_arith);
        if at.kept != was.kept {
            assert(order[k - 1] == i);
            assert forall|m: int| #[trigger] at.kept.contains(m) implies direct_places(
                entries,
            ).contains(m) || exists|j: int| 0 <= j < k && order[j] == m by {
                if m != i && !direct_places(entries).contains(m) {
                    let j = choose|j: int| 0 <= j < k - 1 && order[j] == m;
                    assert(order[j] == m);
                }
            }
        }
    }
}

/// Every direct dependency is kept, whatever the budget.
pub proof fn law_direct_is_kept(entries: Seq<PriorWorkEntry>, budget: int, i: int)
    requires
        0 <= i < entries.len(),
        entries[i].relation.far() is None,
    ensures
        admitted(entries, budget).kept.contains(i),
{
    let order = nearest_first(entries, entries.len() as int);
    lemma_admission(entries, order.len() as int, budget);
    assert(direct_places(entries).contains(i));
}

/// What is shown, heading and separators included, is within the budget,
/// unless nothing but the direct floor is shown.
pub proof fn law_frame_is_within_budget(entries: Seq<PriorWorkEntry>, budget: int)
    ensures
        ({
            let kept = admitted(entries, budget).kept;
            frame_cost(entries, kept) <= budget || kept == direct_places(entries)
        }),
{
    let order = nearest_first(entries, entries.len() as int);
    lemma_admission(entries, order.len() as int, budget);
}

/// Where everything fits, everything is shown.
pub proof fn law_all_shown_where_all_fits(entries: Seq<PriorWorkEntry>, budget: int, i: int)
    requires
        frame_cost(entries, Set::new(|j: int| 0 <= j < entries.len())) <= budget,
        0 <= i < entries.len(),
    ensures
        admitted(entries, budget).kept.contains(i),
{
    let n = entries.len() as int;
    let order = nearest_first(entries, n);
    law_nearest_first(entries, n);
    if entries[i].relation.far() is None {
        law_direct_is_kept(entries, budget, i);
    } else {
        assert(order.contains(i));
        let k = order.index_of(i);
        lemma_all_fits(entries, k + 1, budget);
        lemma_kept_stays(entries, k + 1, order.len() as int, budget, i);
    }
}

proof fn lemma_kept_stays(entries: Seq<PriorWorkEntry>, k: int, m: int, budget: int, i: int)
    requires
        0 <= k <= m,
        admit_in_order(
            entries,
            nearest_first(entries, entries.len() as int),
            k,
            budget,
        ).kept.contains(i),
    ensures
        admit_in_order(
            entries,
            nearest_first(entries, entries.len() as int),
            m,
            budget,
        ).kept.contains(i),
    decreases m - k,
{
    if k < m {
        lemma_kept_stays(entries, k, m - 1, budget, i);
    }
}

proof fn lemma_all_fits(entries: Seq<PriorWorkEntry>, k: int, budget: int)
    requires
        frame_cost(entries, Set::new(|j: int| 0 <= j < entries.len())) <= budget,
        0 < k <= nearest_first(entries, entries.len() as int).len(),
    ensures
        ({
            let order = nearest_first(entries, entries.len() as int);
            admit_in_order(entries, order, k, budget).kept.contains(order[k - 1])
        }),
{
    let n = entries.len() as int;
    let order = nearest_first(entries, n);
    law_nearest_first(entries, n);
    let was = admit_in_order(entries, order, k - 1, budget);
    let i = order[k - 1];
    lemma_admission(entries, k - 1, budget);
    if !was.kept.contains(i) {
        lemma_insert_kept(entries, was.kept, i, n);
        let with = was.kept.insert(i);
        let all = Set::new(|j: int| 0 <= j < entries.len());
        assert(with.subset_of(all)) by {
            assert forall|m: int| with.contains(m) implies all.contains(m) by {
                if m != i {
                    assert(was.kept.contains(m));
                    if !direct_places(entries).contains(m) {
                        let j = choose|j: int| 0 <= j < k - 1 && order[j] == m;
                        assert(0 <= order[j] < n);
                    }
                }
            }
        }
        lemma_frame_cost_monotone(entries, with, all);
        let s = token_cost(FRAME_SEPARATOR@);
        let c = kept_count(was.kept, n);
        assert(c > 0 ==> s * c == s * (c - 1) + s) by (nonlinear_arith);
        assert(c == 0 ==> s * 0 == 0) by (nonlinear_arith);
    } else {
        assert(admit_in_order(entries, order, k, budget).kept.contains(i));
    }
}

/// What is shown stands in plan order: a kept entry stands behind as many
/// others as were kept before it.
pub proof fn law_plan_order_is_kept(
    entries: Seq<PriorWorkEntry>,
    kept: Set<int>,
    n: int,
    i: int,
)
    requires
        0 <= i < n <= entries.len(),
        kept.contains(i),
    ensures
        kept_entries(entries, kept, n).len() == kept_count(kept, n),
        0 <= kept_count(kept, i) < kept_count(kept, n),
        kept_entries(entries, kept, n)[kept_count(kept, i)] == entries[i],
    decreases n,
{
    lemma_kept_len(entries, kept, n);
    lemma_kept_len(entries, kept, n - 1);
    lemma_kept_len(entries, kept, i);
    if i < n - 1 {
        law_plan_order_is_kept(entries, kept, n - 1, i);
    }
}

proof fn lemma_kept_len(entries: Seq<PriorWorkEntry>, kept: Set<int>, n: int)
    requires
        n <= entries.len(),
    ensures
        kept_entries(entries, kept, n).len() == kept_count(kept, n),
        kept_count(kept, n) >= 0,
    decreases n,
{
    if n > 0 {
        lemma_kept_len(entries, kept, n - 1);
    }
}

} // verus!
