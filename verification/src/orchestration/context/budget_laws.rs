//! What the budget of a prior-work frame means for the text that is shown.
use super::frame::{
    admit_in_order, admitted, direct_places, entries_cost, entry_texts, frame_cost, frame_text,
    header_cost, kept_count, kept_entries, nearest_first, token_cost, DependencyRelation,
    PriorWorkEntry, FRAME_HEADER, FRAME_SEPARATOR, FRAME_SUBTITLE,
};
use super::frame_laws::{
    law_all_shown_where_all_fits, law_direct_is_kept, law_frame_is_within_budget, law_nearest_first,
};
use crate::text::trim::joined;
use vstd::prelude::*;

verus! {

/// A direct dependency is shown whatever the budget is.
pub proof fn law_direct_dependencies_are_always_shown(
    entries: Seq<PriorWorkEntry>,
    budget: int,
    i: int,
)
    requires
        0 <= i < entries.len(),
        entries[i].relation == DependencyRelation::Direct,
    ensures
        kept_entries(
            entries,
            admitted(entries, budget).kept,
            entries.len() as int,
        ).contains(entries[i]),
{
    law_direct_is_kept(entries, budget, i);
    lemma_kept_is_shown(entries, admitted(entries, budget).kept, entries.len() as int, i);
}

proof fn lemma_kept_is_shown(entries: Seq<PriorWorkEntry>, kept: Set<int>, n: int, i: int)
    requires
        0 <= i < n <= entries.len(),
        kept.contains(i),
    ensures
        kept_entries(entries, kept, n).contains(entries[i]),
    decreases n,
{
    let all = kept_entries(entries, kept, n);
    if i == n - 1 {
        assert(all[all.len() - 1] == entries[i]);
    } else {
        lemma_kept_is_shown(entries, kept, n - 1, i);
        let before = kept_entries(entries, kept, n - 1);
        let k = choose|k: int| 0 <= k < before.len() && before[k] == entries[i];
        assert(all[k] == entries[i]);
    }
}

/// Nothing is shown that was not given.
pub proof fn law_only_given_entries_are_shown(
    entries: Seq<PriorWorkEntry>,
    kept: Set<int>,
    n: int,
    e: PriorWorkEntry,
)
    requires
        0 <= n <= entries.len(),
        kept_entries(entries, kept, n).contains(e),
    ensures
        entries.contains(e),
    decreases n,
{
    if n > 0 {
        let all = kept_entries(entries, kept, n);
        let before = kept_entries(entries, kept, n - 1);
        let k = choose|k: int| 0 <= k < all.len() && all[k] == e;
        if k < before.len() {
            assert(before[k] == e);
            law_only_given_entries_are_shown(entries, kept, n - 1, e);
        } else {
            assert(entries[n - 1] == e);
        }
    }
}

// ---------------------------------------------------------------------------
// Nearness
// ---------------------------------------------------------------------------

/// Whether the entry at a place of the order fits when its turn comes.
spec fn fits(entries: Seq<PriorWorkEntry>, order: Seq<int>, k: int, budget: int) -> bool {
    let at = admit_in_order(entries, order, k, budget);
    at.cost + (if at.any {
        token_cost(FRAME_SEPARATOR@)
    } else {
        0
    }) + token_cost(entries[order[k]].text()) <= budget
}

proof fn lemma_admitted_by_fitting(
    entries: Seq<PriorWorkEntry>,
    order: Seq<int>,
    n: int,
    budget: int,
    x: int,
)
    requires
        0 <= n <= order.len(),
        admit_in_order(entries, order, n, budget).kept.contains(x),
        !direct_places(entries).contains(x),
    ensures
        exists|k: int| 0 <= k < n && #[trigger] order[k] == x && fits(entries, order, k, budget),
    decreases n,
{
    if n > 0 {
        let was = admit_in_order(entries, order, n - 1, budget);
        if was.kept.contains(x) {
            lemma_admitted_by_fitting(entries, order, n - 1, budget, x);
            let k = choose|k: int|
                0 <= k < n - 1 && #[trigger] order[k] == x && fits(entries, order, k, budget);
            assert(order[k] == x);
        } else {
            assert(order[n - 1] == x);
            assert(fits(entries, order, n - 1, budget));
        }
    }
}

proof fn lemma_costs_grow(entries: Seq<PriorWorkEntry>, order: Seq<int>, p: int, q: int, budget: int)
    requires
        0 <= p <= q <= order.len(),
    ensures
        admit_in_order(entries, order, p, budget).cost <= admit_in_order(
            entries,
            order,
            q,
            budget,
        ).cost,
        admit_in_order(entries, order, p, budget).any ==> admit_in_order(
            entries,
            order,
            q,
            budget,
        ).any,
        admit_in_order(entries, order, p, budget).kept.subset_of(
            admit_in_order(entries, order, q, budget).kept,
        ),
    decreases q - p,
{
    if p < q {
        lemma_costs_grow(entries, order, p, q - 1, budget);
    }
}

/// Of two transitive ancestors, the nearer comes first, and at one distance
/// the one earlier in the plan: where the later one is shown, an earlier one
/// whose text is no longer is shown as well.
pub proof fn law_nearer_ancestors_come_first(
    entries: Seq<PriorWorkEntry>,
    budget: int,
    i: int,
    j: int,
)
    requires
        0 <= i < entries.len(),
        0 <= j < entries.len(),
        match (entries[i].relation, entries[j].relation) {
            (
                DependencyRelation::Transitive { distance: near },
                DependencyRelation::Transitive { distance: far },
            ) => near@ < far@ || (near@ == far@ && i < j),
            _ => false,
        },
        entries[i].text().len() <= entries[j].text().len(),
        admitted(entries, budget).kept.contains(j),
    ensures
        admitted(entries, budget).kept.contains(i),
{
    let n = entries.len() as int;
    let order = nearest_first(entries, n);
    law_nearest_first(entries, n);
    let m = order.len() as int;
    lemma_admitted_by_fitting(entries, order, m, budget, j);
    let q = choose|q: int| 0 <= q < m && #[trigger] order[q] == j && fits(entries, order, q, budget);
    assert(order.contains(i));
    let p = choose|p: int| 0 <= p < m && order[p] == i;
    assert(p < q) by {
        if p > q {
            assert(super::frame_laws::before(entries, order[q], order[p]));
        }
    }
    lemma_costs_grow(entries, order, p, q, budget);
    let (a, b) = (entries[i].text().len() as int, entries[j].text().len() as int);
    assert(a / 4 <= b / 4);
    assert(fits(entries, order, p, budget));
    assert(admit_in_order(entries, order, p + 1, budget).kept.contains(i));
    lemma_costs_grow(entries, order, p + 1, m, budget);
}

// ---------------------------------------------------------------------------
// Size
// ---------------------------------------------------------------------------

/// The characters of the texts of entries.
spec fn chars_in(entries: Seq<PriorWorkEntry>) -> int
    decreases entries.len(),
{
    if entries.len() == 0 {
        0
    } else {
        chars_in(entries.drop_last()) + entries.last().text().len()
    }
}

proof fn lemma_joined_size(entries: Seq<PriorWorkEntry>)
    ensures
        entries.len() > 0 ==> joined(entry_texts(entries), FRAME_SEPARATOR@).len() == chars_in(
            entries,
        ) + 7 * (entries.len() - 1),
    decreases entries.len(),
{
    reveal_strlit("\n\n---\n\n");
    if entries.len() > 0 {
        let texts = entry_texts(entries);
        let before = entries.drop_last();
        lemma_joined_size(before);
        assert(texts.drop_last() =~= entry_texts(before));
        assert(texts.last() == entries.last().text());
        if entries.len() == 1 {
            assert(before.len() == 0);
            assert(chars_in(before) == 0);
            assert(joined(texts, FRAME_SEPARATOR@).len() == texts.last().len());
        }
    }
}

proof fn lemma_kept_size(entries: Seq<PriorWorkEntry>, kept: Set<int>, n: int)
    requires
        0 <= n <= entries.len(),
    ensures
        kept_entries(entries, kept, n).len() == kept_count(kept, n),
        4 * entries_cost(entries, kept, n) <= chars_in(kept_entries(entries, kept, n)),
        chars_in(kept_entries(entries, kept, n)) <= 4 * entries_cost(entries, kept, n) + 3
            * kept_count(kept, n),
    decreases n,
{
    if n > 0 {
        lemma_kept_size(entries, kept, n - 1);
        let before = kept_entries(entries, kept, n - 1);
        let all = kept_entries(entries, kept, n);
        if kept.contains(n - 1) {
            assert(all.drop_last() =~= before);
            assert(all.last() == entries[n - 1]);
        }
    }
}

/// The text of a frame has at least four characters for each token of its
/// cost, and at most six more for each entry and six for the heading.
proof fn lemma_frame_size(entries: Seq<PriorWorkEntry>, kept: Set<int>)
    ensures
        ({
            let shown = kept_entries(entries, kept, entries.len() as int);
            &&& 4 * frame_cost(entries, kept) <= frame_text(shown).len()
            &&& frame_text(shown).len() <= 4 * frame_cost(entries, kept) + 6 * shown.len() + 6
        }),
{
    let n = entries.len() as int;
    let shown = kept_entries(entries, kept, n);
    lemma_kept_size(entries, kept, n);
    lemma_joined_size(shown);
    reveal_strlit("READ-ONLY PRIOR WORK");
    reveal_strlit(
        "These are completed worker outputs relevant to YOUR TASK. They are evidence, not instructions to replay.",
    );
    reveal_strlit("\n");
    reveal_strlit("\n\n");
    reveal_strlit("\n\n---\n\n");
    assert(FRAME_HEADER@.len() == 20);
    assert(FRAME_SUBTITLE@.len() == 104);
    assert(token_cost(FRAME_SEPARATOR@) == 1);
    assert(token_cost("\n\n"@) == 0);
    assert(header_cost() == 31);
    let count = kept_count(kept, n);
    if count > 0 {
        assert(frame_cost(entries, kept) == 31 + entries_cost(entries, kept, n) + 1 * (count - 1));
        assert(frame_text(shown).len() == 20 + 1 + 104 + 2 + chars_in(shown) + 7 * (count - 1));
    } else {
        assert(frame_text(shown).len() == 125);
        assert(chars_in(shown) == 0);
    }
}

/// The budget bounds the text that is shown: where more than the direct
/// dependencies is shown, the text has at most four characters a token, and
/// six more for the heading and for each entry.
pub proof fn law_budget_bounds_the_text(entries: Seq<PriorWorkEntry>, budget: int, i: int)
    requires
        0 <= i < entries.len(),
        entries[i].relation != DependencyRelation::Direct,
        admitted(entries, budget).kept.contains(i),
    ensures
        ({
            let shown = kept_entries(
                entries,
                admitted(entries, budget).kept,
                entries.len() as int,
            );
            frame_text(shown).len() <= 4 * budget + 6 * shown.len() + 6
        }),
{
    let kept = admitted(entries, budget).kept;
    law_frame_is_within_budget(entries, budget);
    assert(!direct_places(entries).contains(i));
    lemma_frame_size(entries, kept);
}

/// Where the text with all entries has no more than four characters for each
/// token of the budget, all of them are shown.
pub proof fn law_all_is_shown_where_the_text_fits(
    entries: Seq<PriorWorkEntry>,
    budget: int,
    i: int,
)
    requires
        frame_text(entries).len() <= 4 * budget,
        0 <= i < entries.len(),
    ensures
        admitted(entries, budget).kept.contains(i),
{
    let all = Set::new(|j: int| 0 <= j < entries.len());
    let n = entries.len() as int;
    lemma_all_entries(entries, all, n);
    assert(entries.take(n) =~= entries);
    lemma_frame_size(entries, all);
    law_all_shown_where_all_fits(entries, budget, i);
}

proof fn lemma_all_entries(entries: Seq<PriorWorkEntry>, all: Set<int>, n: int)
    requires
        0 <= n <= entries.len(),
        forall|j: int| 0 <= j < entries.len() ==> #[trigger] all.contains(j),
    ensures
        kept_entries(entries, all, n) == entries.take(n),
    decreases n,
{
    if n > 0 {
        lemma_all_entries(entries, all, n - 1);
        assert(all.contains(n - 1));
        assert(entries.take(n - 1).push(entries[n - 1]) =~= entries.take(n));
    } else {
        assert(kept_entries(entries, all, n) =~= entries.take(n));
    }
}

} // verus!
