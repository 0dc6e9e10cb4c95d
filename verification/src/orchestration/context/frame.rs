//! The worker's prior-work frame.
//!
//! The frame shows a worker the evidence of completed ancestor tasks, entry by
//! entry and under a token budget. No entry can hold the text of a prior task.
use super::error::ContextError;
use super::evidence::{indent, indented, EvidenceEntry};
use super::label::{role_text, CorrelationLabel, WorkerClaim, WorkerRole};
use super::named_check::{check_line, NamedCheck};
use super::rendered::RenderedContext;
use crate::orchestration::bounding::NonZeroCount;
use crate::text::numerals::{numeral, usize_text};
use crate::text::trim::{join, joined, views};
use crate::text::{blank, is_blank};
use vstd::prelude::*;

verus! {

/// The distance to a transitive ancestor, in dependency edges: two or more.
#[derive(Debug, Clone, Copy, PartialEq, Eq, Hash, PartialOrd, Ord)]
pub struct AncestorDistance {
    edges: usize,
}

impl View for AncestorDistance {
    type V = usize;

    closed spec fn view(&self) -> usize {
        self.edges
    }
}

impl AncestorDistance {
    /// The smallest transitive distance.
    pub const MIN: usize = 2;

    /// Accept a transitive distance; one edge is a direct dependency.
    pub fn new(distance: usize) -> (r: Result<Self, ContextError>)
        ensures
            match r {
                Ok(v) => distance >= 2 && v@ == distance,
                Err(e) => distance < 2 && e == ContextError::TransitiveDistanceIsDirect,
            },
    {
        if distance < Self::MIN {
            return Err(ContextError::TransitiveDistanceIsDirect);
        }
        Ok(AncestorDistance { edges: distance })
    }

    /// The distance as a numeral.
    pub fn to_string(&self) -> (r: String)
        ensures
            r@ == numeral(self@ as nat),
    {
        usize_text(self.edges)
    }

    fn edges(&self) -> (r: usize)
        ensures
            r == self@,
    {
        self.edges
    }
}

/// How a prior task relates to the current one.
#[derive(Debug, Clone, Copy, PartialEq, Eq)]
pub enum DependencyRelation {
    /// A direct dependency: always kept.
    Direct,
    /// A transitive ancestor: admitted while the budget lasts, nearest first.
    Transitive { distance: AncestorDistance },
}

impl DependencyRelation {
    /// The distance of a transitive ancestor.
    pub open spec fn far(self) -> Option<usize> {
        match self {
            DependencyRelation::Direct => None,
            DependencyRelation::Transitive { distance } => Some(distance@),
        }
    }
}

/// The budget of a frame, in tokens.
#[derive(Debug, Clone, Copy, PartialEq, Eq)]
pub struct TokenBudget {
    tokens: NonZeroCount,
}

/// The budget of a frame that was given none.
pub const DEFAULT_TOKENS: usize = 8000;

impl View for TokenBudget {
    type V = usize;

    closed spec fn view(&self) -> usize {
        self.tokens@
    }
}

impl TokenBudget {
    /// Accept any budget but zero.
    pub fn new(tokens: usize) -> (r: Result<Self, ContextError>)
        ensures
            match r {
                Ok(v) => tokens > 0 && v@ == tokens,
                Err(e) => tokens == 0 && e == ContextError::ZeroTokenBudget,
            },
    {
        match NonZeroCount::new(tokens) {
            Some(tokens) => Ok(TokenBudget { tokens }),
            None => Err(ContextError::ZeroTokenBudget),
        }
    }

    /// The budget, in tokens.
    pub fn get(&self) -> (r: NonZeroCount)
        ensures
            r@ == self@,
    {
        self.tokens
    }
}

impl Default for TokenBudget {
    fn default() -> (r: Self)
        ensures
            r@ == DEFAULT_TOKENS,
    {
        match NonZeroCount::new(DEFAULT_TOKENS) {
            Some(tokens) => TokenBudget { tokens },
            None => {
                let tokens = NonZeroCount::new(1).unwrap();
                TokenBudget { tokens }
            },
        }
    }
}

/// One prior task's entry.
#[derive(Debug, PartialEq, Eq)]
pub struct PriorWorkEntry {
    /// Task id and worker role.
    pub label: CorrelationLabel,
    /// How the task relates to the current one.
    pub relation: DependencyRelation,
    /// What the prior worker reported.
    pub evidence: EvidenceEntry,
    /// The decisive check that the prior task declared.
    pub named_check: Option<NamedCheck>,
}

impl Clone for PriorWorkEntry {
    fn clone(&self) -> (r: Self)
        ensures
            r == *self,
    {
        PriorWorkEntry {
            label: self.label.clone(),
            relation: self.relation,
            evidence: self.evidence.clone(),
            named_check: match &self.named_check {
                Some(check) => Some(check.clone()),
                None => None,
            },
        }
    }
}

/// The line that names the worker, where there is one.
pub open spec fn worker_line(worker: Option<Seq<char>>) -> Seq<char> {
    match worker {
        Some(name) => "\nWorker: "@ + name,
        None => Seq::empty(),
    }
}

/// The line that says how a task relates to the current one.
pub open spec fn relation_line(relation: DependencyRelation) -> Seq<char> {
    match relation {
        DependencyRelation::Direct => "\nRelation: same-plan direct dependency"@,
        DependencyRelation::Transitive { distance } => {
            "\nRelation: same-plan transitive dependency (distance "@ + numeral(distance@ as nat)
                + ")"@
        },
    }
}

/// The lines of an attested claim, where there is one.
pub open spec fn claim_lines(claim: Option<WorkerClaim>) -> Seq<char> {
    match claim {
        Some(c) => "\nSummary: "@ + c.summary_text() + "\nConfidence: "@
            + c.stated_confidence().name(),
        None => Seq::empty(),
    }
}

/// The body under the evidence heading: an empty line where it is blank.
pub open spec fn evidence_lines(body: Seq<char>) -> Seq<char> {
    if is_blank(body) {
        "\n"@
    } else {
        "\n"@ + indented(body)
    }
}

/// The line of the declared check, where there is one.
pub open spec fn declared_check_line(check: Option<NamedCheck>) -> Seq<char> {
    match check {
        Some(c) => "\n"@ + indented(check_line(c.identity_text(), c.result_text())),
        None => Seq::empty(),
    }
}

/// The line of the spill footer, where there is one.
pub open spec fn spill_line(footer: Option<Seq<char>>) -> Seq<char> {
    match footer {
        Some(text) => "\n"@ + indented(text),
        None => Seq::empty(),
    }
}

impl PriorWorkEntry {
    /// The text of the entry. The declared check stands above the footer.
    pub open spec fn text(self) -> Seq<char> {
        "Prior Task "@ + numeral(self.label.task@ as nat) + worker_line(role_text(self.label.worker))
            + relation_line(self.relation) + claim_lines(self.evidence.carried_claim())
            + "\nEvidence:"@ + evidence_lines(self.evidence.body_text()) + declared_check_line(
            self.named_check,
        ) + spill_line(self.evidence.spill_footer())
    }

    /// Render the entry.
    pub fn render(&self) -> (r: RenderedContext)
        ensures
            r@ == self.text(),
    {
        let (body, footer) = self.evidence.body_parts();
        let mut text = "Prior Task ".to_owned();
        text.append(self.label.task.to_string().as_str());
        text.append(render_worker(&self.label.worker).as_str());
        text.append(render_relation(self.relation).as_str());
        text.append(render_claim(self.evidence.claim()).as_str());
        text.append("\nEvidence:");
        text.append(render_body(body.as_str()).as_str());
        text.append(render_check(&self.named_check).as_str());
        text.append(render_footer(&footer).as_str());
        RenderedContext::new(text)
    }
}

fn render_worker(worker: &Option<WorkerRole>) -> (r: String)
    ensures
        r@ == worker_line(role_text(*worker)),
{
    match worker {
        Some(role) => {
            let mut line = "\nWorker: ".to_owned();
            line.append(role.as_str());
            line
        },
        None => String::new(),
    }
}

fn render_relation(relation: DependencyRelation) -> (r: String)
    ensures
        r@ == relation_line(relation),
{
    match relation {
        DependencyRelation::Direct => "\nRelation: same-plan direct dependency".to_owned(),
        DependencyRelation::Transitive { distance } => {
            let mut line = "\nRelation: same-plan transitive dependency (distance ".to_owned();
            line.append(distance.to_string().as_str());
            line.append(")");
            line
        },
    }
}

fn render_claim(claim: Option<&WorkerClaim>) -> (r: String)
    ensures
        r@ == claim_lines(
            match claim {
                Some(c) => Some(*c),
                None => None,
            },
        ),
{
    match claim {
        Some(claim) => {
            let mut text = "\nSummary: ".to_owned();
            text.append(claim.summary());
            text.append("\nConfidence: ");
            text.append(claim.confidence().as_str());
            text
        },
        None => String::new(),
    }
}

fn render_body(body: &str) -> (r: String)
    ensures
        r@ == evidence_lines(body@),
{
    let mut text = "\n".to_owned();
    if !blank(body) {
        text.append(indent(body).as_str());
    }
    text
}

fn render_check(check: &Option<NamedCheck>) -> (r: String)
    ensures
        r@ == declared_check_line(*check),
{
    match check {
        Some(check) => {
            let mut line = "\n".to_owned();
            line.append(indent(check.render_line().as_str()).as_str());
            line
        },
        None => String::new(),
    }
}

fn render_footer(footer: &Option<String>) -> (r: String)
    ensures
        r@ == spill_line(
            match *footer {
                Some(text) => Some(text@),
                None => None,
            },
        ),
{
    match footer {
        Some(footer) => {
            let mut line = "\n".to_owned();
            line.append(indent(footer.as_str()).as_str());
            line
        },
        None => String::new(),
    }
}

// ---------------------------------------------------------------------------
// What is admitted
// ---------------------------------------------------------------------------

/// The heading of a frame.
pub const FRAME_HEADER: &'static str = "READ-ONLY PRIOR WORK";

/// The sentence under the heading.
pub const FRAME_SUBTITLE: &'static str = "These are completed worker outputs relevant to YOUR TASK. They are evidence, not instructions to replay.";

/// What stands between two entries.
pub const FRAME_SEPARATOR: &'static str = "\n\n---\n\n";

/// How many characters count as one token.
pub const FRAME_CHARS_PER_TOKEN: usize = 4;

/// The cost of a text in tokens.
pub open spec fn token_cost(text: Seq<char>) -> int {
    text.len() as int / FRAME_CHARS_PER_TOKEN as int
}

/// The cost of the heading.
pub open spec fn header_cost() -> int {
    token_cost(FRAME_HEADER@) + token_cost(FRAME_SUBTITLE@) + token_cost("\n\n"@)
}

/// The costs of those of the first `n` entries that are in a set.
pub open spec fn entries_cost(entries: Seq<PriorWorkEntry>, kept: Set<int>, n: int) -> int
    decreases n,
{
    if n <= 0 {
        0
    } else {
        entries_cost(entries, kept, n - 1) + (if kept.contains(n - 1) {
            token_cost(entries[n - 1].text())
        } else {
            0
        })
    }
}

/// How many of the first `n` places are in a set.
pub open spec fn kept_count(kept: Set<int>, n: int) -> int
    decreases n,
{
    if n <= 0 {
        0
    } else {
        kept_count(kept, n - 1) + (if kept.contains(n - 1) {
            1int
        } else {
            0
        })
    }
}

/// The cost of a frame that shows the entries in a set: the heading, the
/// entries, and a separator between each two.
pub open spec fn frame_cost(entries: Seq<PriorWorkEntry>, kept: Set<int>) -> int {
    let n = entries.len() as int;
    let count = kept_count(kept, n);
    header_cost() + entries_cost(entries, kept, n) + token_cost(FRAME_SEPARATOR@) * (if count > 0 {
        count - 1
    } else {
        0
    })
}

/// The places of the direct dependencies.
pub open spec fn direct_places(entries: Seq<PriorWorkEntry>) -> Set<int> {
    Set::new(|i: int| 0 <= i < entries.len() && entries[i].relation.far() is None)
}

/// How many leading places of `order` hold entries no farther than `distance`,
/// counted from the end of an order by distance.
pub open spec fn insertion_place(
    entries: Seq<PriorWorkEntry>,
    order: Seq<int>,
    distance: usize,
) -> nat
    decreases order.len(),
{
    if order.len() == 0 {
        0
    } else if entries[order.last()].relation.far()->0 <= distance {
        order.len()
    } else {
        insertion_place(entries, order.drop_last(), distance)
    }
}

/// The places of the transitive ancestors among the first `n` entries, nearest
/// first, and in plan order at one distance.
pub open spec fn nearest_first(entries: Seq<PriorWorkEntry>, n: int) -> Seq<int>
    decreases n,
{
    if n <= 0 {
        Seq::empty()
    } else {
        let order = nearest_first(entries, n - 1);
        match entries[n - 1].relation.far() {
            None => order,
            Some(distance) => order.insert(
                insertion_place(entries, order, distance) as int,
                n - 1,
            ),
        }
    }
}

/// What was admitted so far, and what it costs.
pub struct Admission {
    /// The places of the admitted entries.
    pub kept: Set<int>,
    /// The cost so far.
    pub cost: int,
    /// Whether anything was admitted.
    pub any: bool,
}

/// The direct dependencies, which are always admitted.
pub open spec fn direct_floor(entries: Seq<PriorWorkEntry>) -> Admission {
    let kept = direct_places(entries);
    Admission {
        kept,
        cost: frame_cost(entries, kept),
        any: kept_count(kept, entries.len() as int) > 0,
    }
}

/// Admit one more entry where it fits: its cost, with a separator unless it is
/// the first, within the budget.
pub open spec fn admit_one(
    entries: Seq<PriorWorkEntry>,
    at: Admission,
    i: int,
    budget: int,
) -> Admission {
    let separator = if at.any {
        token_cost(FRAME_SEPARATOR@)
    } else {
        0
    };
    let cost = at.cost + separator + token_cost(entries[i].text());
    if cost <= budget {
        Admission { kept: at.kept.insert(i), cost, any: true }
    } else {
        at
    }
}

/// Admit the first `n` entries of an order, each where it fits.
pub open spec fn admit_in_order(
    entries: Seq<PriorWorkEntry>,
    order: Seq<int>,
    n: int,
    budget: int,
) -> Admission
    decreases n,
{
    if n <= 0 {
        direct_floor(entries)
    } else {
        admit_one(entries, admit_in_order(entries, order, n - 1, budget), order[n - 1], budget)
    }
}

/// What a frame with a budget admits.
pub open spec fn admitted(entries: Seq<PriorWorkEntry>, budget: int) -> Admission {
    let order = nearest_first(entries, entries.len() as int);
    admit_in_order(entries, order, order.len() as int, budget)
}

/// Those of the first `n` entries that are in a set, in plan order.
pub open spec fn kept_entries(
    entries: Seq<PriorWorkEntry>,
    kept: Set<int>,
    n: int,
) -> Seq<PriorWorkEntry>
    decreases n,
{
    if n <= 0 {
        Seq::empty()
    } else {
        let before = kept_entries(entries, kept, n - 1);
        if kept.contains(n - 1) {
            before.push(entries[n - 1])
        } else {
            before
        }
    }
}

/// The frame of one task: the admitted entries, in plan order.
#[derive(Debug, PartialEq, Eq)]
pub struct PriorWorkFrame {
    entries: Vec<PriorWorkEntry>,
    budget: TokenBudget,
}

/// The texts of entries.
pub open spec fn entry_texts(entries: Seq<PriorWorkEntry>) -> Seq<Seq<char>> {
    Seq::new(entries.len(), |i: int| entries[i].text())
}

/// The text of a frame.
pub open spec fn frame_text(entries: Seq<PriorWorkEntry>) -> Seq<char> {
    FRAME_HEADER@ + "\n"@ + FRAME_SUBTITLE@ + (if entries.len() == 0 {
        Seq::empty()
    } else {
        "\n\n"@ + joined(entry_texts(entries), FRAME_SEPARATOR@)
    })
}

/// The cost of a text in tokens.
fn cost_of(text: &str) -> (r: usize)
    ensures
        r == token_cost(text@),
        r <= usize::MAX / 4,
{
    let n = text.unicode_len();
    n / FRAME_CHARS_PER_TOKEN
}

impl PriorWorkFrame {
    /// The heading.
    pub const HEADER: &'static str = FRAME_HEADER;

    /// The sentence under the heading.
    pub const SUBTITLE: &'static str = FRAME_SUBTITLE;

    /// What stands between two entries.
    pub const ENTRY_SEPARATOR: &'static str = FRAME_SEPARATOR;

    /// How many characters count as one token.
    pub const CHARS_PER_TOKEN: usize = FRAME_CHARS_PER_TOKEN;

    /// The admitted entries.
    pub closed spec fn admitted_entries(self) -> Seq<PriorWorkEntry> {
        self.entries@
    }

    /// The budget, in tokens.
    pub closed spec fn token_limit(self) -> usize {
        self.budget@
    }

    /// Assemble a frame. Direct dependencies are always kept; transitive
    /// ancestors are admitted nearest first, each where it still fits; what is
    /// kept stands in plan order. No entries make no frame.
    pub fn assemble(entries: Vec<PriorWorkEntry>, budget: TokenBudget) -> (r: Result<
        Self,
        ContextError,
    >)
        ensures
            match r {
                Ok(frame) => {
                    &&& entries@.len() > 0
                    &&& frame.admitted_entries() == kept_entries(
                        entries@,
                        admitted(entries@, budget@ as int).kept,
                        entries@.len() as int,
                    )
                    &&& frame.token_limit() == budget@
                },
                Err(e) => entries@.len() == 0 && e == ContextError::EmptyPriorWorkFrame,
            },
    {
        let n = entries.len();
        if n == 0 {
            return Err(ContextError::EmptyPriorWorkFrame);
        }
        let limit: u128 = budget.get().get() as u128;
        let (costs, flags, floor) = direct_floor_of(&entries);
        let order = order_of(&entries);
        let mut flags = flags;
        let mut cost: u128 = floor.0;
        let mut any: bool = floor.1;
        let separator: u128 = cost_of(FRAME_SEPARATOR) as u128;
        let mut k: usize = 0;
        let ghost places = nearest_first(entries@, n as int);
        while k < order.len()
            invariant
                n == entries@.len(),
                costs@.len() == n,
                flags@.len() == n,
                k <= order@.len(),
                limit == budget@,
                separator == token_cost(FRAME_SEPARATOR@),
                separator <= usize::MAX,
                places == nearest_first(entries@, n as int),
                order@.len() == places.len(),
                forall|i: int| 0 <= i < places.len() ==> #[trigger] order@[i] == places[i],
                forall|i: int| 0 <= i < order@.len() ==> #[trigger] order@[i] < n,
                forall|i: int|
                    0 <= i < n ==> #[trigger] costs@[i] == token_cost(entries@[i].text()),
                ({
                    let at = admit_in_order(entries@, places, k as int, limit as int);
                    &&& cost == at.cost
                    &&& any == at.any
                    &&& forall|i: int|
                        0 <= i < n ==> #[trigger] flags@[i] == at.kept.contains(i)
                }),
                cost <= floor.0 || cost <= limit,
                floor.0 <= 0x5000_0000_0000_0000_0000_0000_0000_0000,
                limit <= usize::MAX,
            decreases order@.len() - k,
        {
            let i = order[k];
            let extra: u128 = (if any {
                separator
            } else {
                0
            }) + costs[i] as u128;
            proof {
                assert(order@[k as int] == places[k as int]);
                assert(costs@[i as int] == token_cost(entries@[i as int].text()));
            }
            if cost + extra <= limit {
                cost = cost + extra;
                any = true;
                flags.set(i, true);
            }
            k = k + 1;
        }
        let ghost kept = admitted(entries@, limit as int).kept;
        let mut out: Vec<PriorWorkEntry> = Vec::new();
        let mut i: usize = 0;
        while i < n
            invariant
                n == entries@.len(),
                flags@.len() == n,
                i <= n,
                forall|j: int| 0 <= j < n ==> #[trigger] flags@[j] == kept.contains(j),
                out@ == kept_entries(entries@, kept, i as int),
            decreases n - i,
        {
            if flags[i] {
                out.push(entries[i].clone());
            }
            i = i + 1;
        }
        Ok(PriorWorkFrame { entries: out, budget })
    }

    /// The admitted entries, oldest first.
    pub fn entries(&self) -> (r: &[PriorWorkEntry])
        ensures
            r@ == self.admitted_entries(),
    {
        self.entries.as_slice()
    }

    /// The budget that the frame was assembled under.
    pub fn budget(&self) -> (r: TokenBudget)
        ensures
            r@ == self.token_limit(),
    {
        self.budget
    }

    /// Render the frame with its heading.
    pub fn render(&self) -> (r: RenderedContext)
        ensures
            r@ == frame_text(self.admitted_entries()),
    {
        let mut text = FRAME_HEADER.to_owned();
        text.append("\n");
        text.append(FRAME_SUBTITLE);
        let ghost head = text@;
        if self.entries.len() > 0 {
            let mut parts: Vec<String> = Vec::new();
            let mut i: usize = 0;
            while i < self.entries.len()
                invariant
                    i <= self.entries@.len(),
                    views(parts@) == entry_texts(self.entries@).take(i as int),
                decreases self.entries@.len() - i,
            {
                let part = self.entries[i].render().into_string();
                let ghost before = parts@;
                parts.push(part);
                proof {
                    assert(views(parts@) =~= views(before).push(part@));
                    assert(entry_texts(self.entries@).take(i + 1) =~= entry_texts(
                        self.entries@,
                    ).take(i as int).push(part@));
                }
                i = i + 1;
            }
            assert(entry_texts(self.entries@).take(i as int) =~= entry_texts(self.entries@));
            text.append("\n\n");
            text.append(join(&parts, FRAME_SEPARATOR).as_str());
            assert(text@ =~= head + ("\n\n"@ + joined(
                entry_texts(self.entries@),
                FRAME_SEPARATOR@,
            )));
        } else {
            assert(text@ =~= head + Seq::<char>::empty());
        }
        RenderedContext::new(text)
    }
}

/// The cost of each entry, which entries are direct, and what the direct ones
/// cost together with whether there are any.
fn direct_floor_of(entries: &Vec<PriorWorkEntry>) -> (r: (Vec<usize>, Vec<bool>, (u128, bool)))
    ensures
        r.0@.len() == entries@.len(),
        r.1@.len() == entries@.len(),
        forall|i: int|
            0 <= i < entries@.len() ==> #[trigger] r.0@[i] == token_cost(entries@[i].text()),
        forall|i: int|
            0 <= i < entries@.len() ==> #[trigger] r.1@[i] == direct_places(entries@).contains(i),
        r.2.0 == direct_floor(entries@).cost,
        r.2.1 == direct_floor(entries@).any,
        r.2.0 <= 0x5000_0000_0000_0000_0000_0000_0000_0000,
{
    let ghost places = direct_places(entries@);
    let n = entries.len();
    let mut costs: Vec<usize> = Vec::new();
    let mut flags: Vec<bool> = Vec::new();
    let mut cost: u128 = 0;
    let mut count: usize = 0;
    let mut i: usize = 0;
    while i < n
        invariant
            n == entries@.len(),
            places == direct_places(entries@),
            i <= n,
            costs@.len() == i,
            flags@.len() == i,
            forall|j: int| 0 <= j < i ==> #[trigger] costs@[j] == token_cost(entries@[j].text()),
            forall|j: int| 0 <= j < i ==> #[trigger] flags@[j] == places.contains(j),
            cost == entries_cost(entries@, places, i as int),
            count == kept_count(places, i as int),
            count <= i,
            cost <= i * 0x4000_0000_0000_0000,
        decreases n - i,
    {
        let one = cost_of(entries[i].render().as_str());
        let direct = match entries[i].relation {
            DependencyRelation::Direct => true,
            DependencyRelation::Transitive { .. } => false,
        };
        costs.push(one);
        flags.push(direct);
        assert(direct == places.contains(i as int));
        if direct {
            cost = cost + one as u128;
            count = count + 1;
        }
        i = i + 1;
    }
    let separator: u128 = cost_of(FRAME_SEPARATOR) as u128;
    let header: u128 = cost_of(FRAME_HEADER) as u128 + cost_of(FRAME_SUBTITLE) as u128 + cost_of(
        "\n\n",
    ) as u128;
    let gaps: u128 = if count > 0 {
        (count - 1) as u128
    } else {
        0
    };
    proof {
        reveal_strlit("\n\n---\n\n");
        assert(separator == 1);
        assert(separator * gaps == gaps) by (nonlinear_arith)
            requires
                separator == 1,
        ;
    }
    let total: u128 = header + cost + separator * gaps;
    (costs, flags, (total, count > 0))
}

/// The places of the transitive ancestors, nearest first.
fn order_of(entries: &Vec<PriorWorkEntry>) -> (r: Vec<usize>)
    ensures
        r@.len() == nearest_first(entries@, entries@.len() as int).len(),
        forall|i: int|
            0 <= i < r@.len() ==> #[trigger] r@[i] == nearest_first(
                entries@,
                entries@.len() as int,
            )[i],
        forall|i: int| 0 <= i < r@.len() ==> #[trigger] r@[i] < entries@.len(),
{
    let n = entries.len();
    let mut order: Vec<usize> = Vec::new();
    let mut distances: Vec<usize> = Vec::new();
    let mut i: usize = 0;
    while i < n
        invariant
            n == entries@.len(),
            i <= n,
            order@.len() == nearest_first(entries@, i as int).len(),
            distances@.len() == order@.len(),
            forall|j: int|
                0 <= j < order@.len() ==> #[trigger] order@[j] == nearest_first(
                    entries@,
                    i as int,
                )[j],
            forall|j: int| 0 <= j < order@.len() ==> #[trigger] order@[j] < n,
            forall|j: int|
                0 <= j < order@.len() ==> #[trigger] distances@[j]
                    == entries@[order@[j] as int].relation.far()->0,
        decreases n - i,
    {
        match entries[i].relation {
            DependencyRelation::Direct => {},
            DependencyRelation::Transitive { distance } => {
                let d = distance.edges();
                let ghost places = nearest_first(entries@, i as int);
                let mut k: usize = order.len();
                assert(places.take(k as int) =~= places);
                while k > 0 && distances[k - 1] > d
                    invariant
                        k <= order@.len(),
                        distances@.len() == order@.len(),
                        order@.len() == places.len(),
                        forall|j: int| 0 <= j < order@.len() ==> #[trigger] order@[j] == places[j],
                        forall|j: int|
                            0 <= j < order@.len() ==> #[trigger] distances@[j]
                                == entries@[order@[j] as int].relation.far()->0,
                        insertion_place(entries@, places, d) == insertion_place(
                            entries@,
                            places.take(k as int),
                            d,
                        ),
                    decreases k,
                {
                    assert(order@[k - 1] == places[k - 1]);
                    assert(places.take(k as int).last() == places[k - 1]);
                    assert(places.take(k as int).drop_last() =~= places.take(k - 1));
                    k = k - 1;
                }
                proof {
                    if k > 0 {
                        assert(order@[k - 1] == places[k - 1]);
                        assert(places.take(k as int).last() == places[k - 1]);
                    }
                    assert(insertion_place(entries@, places, d) == k);
                }
                let ghost before = order@;
                let ghost before_d = distances@;
                order.insert(k, i);
                distances.insert(k, d);
                proof {
                    let next = nearest_first(entries@, i + 1);
                    assert(next == places.insert(k as int, i as int));
                    assert forall|j: int| 0 <= j < order@.len() implies {
                        &&& #[trigger] order@[j] == next[j]
                        &&& order@[j] < n
                        &&& distances@[j] == entries@[order@[j] as int].relation.far()->0
                    } by {
                        if j < k {
                            assert(order@[j] == before[j]);
                            assert(distances@[j] == before_d[j]);
                        } else if j > k {
                            assert(order@[j] == before[j - 1]);
                            assert(distances@[j] == before_d[j - 1]);
                        }
                    }
                }
            },
        }
        i = i + 1;
    }
    order
}

} // verus!
