//! What a rendered prior-work entry tells a worker.
use super::evidence::{
    footer_text, indented, indented_lines, ArtifactStandIn, EvidenceEntry, SpilledArtifact,
    FOOTER_INFIX, FOOTER_PREFIX,
};
use super::frame::{
    claim_lines, declared_check_line, entry_texts, evidence_lines, frame_text, relation_line,
    spill_line, worker_line, DependencyRelation, PriorWorkEntry, FRAME_HEADER, FRAME_SEPARATOR,
    FRAME_SUBTITLE,
};
use super::label::{role_text, WorkerClaim, WorkerRole};
use super::named_check::{check_line, NamedCheck};
use crate::orchestration::types::Confidence;
use crate::text::is_blank;
use crate::text::numerals::{digit_value, lemma_numeral_digits, numeral};
use crate::text::parts::{
    law_joined_holds_each_part, law_numerals_tell_numbers_apart, lemma_holds_in,
    lemma_holds_what_a_part_holds, lemma_opening_numerals, lemma_part_decides,
};
use crate::text::search::{contains_text, occurs_at};
use crate::text::trim::{joined, lemma_line_end, line_end, lines};
use vstd::prelude::*;

verus! {

/// A text on one line: neither a line feed nor a carriage return in it.
pub open spec fn on_one_line(part: Seq<char>) -> bool {
    &&& part.len() > 0
    &&& forall|i: int| 0 <= i < part.len() ==> #[trigger] part[i] != '\n' && part[i] != '\r'
}

/// What stands before the relation of an entry.
spec fn head(e: PriorWorkEntry) -> Seq<char> {
    "Prior Task "@ + numeral(e.label.task@ as nat) + worker_line(role_text(e.label.worker))
}

/// What stands behind the relation of an entry.
spec fn rest(e: PriorWorkEntry) -> Seq<char> {
    claim_lines(e.evidence.carried_claim()) + "\nEvidence:"@ + evidence_lines(
        e.evidence.body_text(),
    ) + declared_check_line(e.named_check) + spill_line(e.evidence.spill_footer())
}

proof fn lemma_entry_parts(e: PriorWorkEntry)
    ensures
        e.text() == head(e) + relation_line(e.relation) + rest(e),
{
    assert(e.text() =~= head(e) + relation_line(e.relation) + rest(e));
}

/// Two entries that differ in their relation alone never render alike: not a
/// direct one and a transitive one, and not two at different distances.
pub proof fn law_relation_is_told(a: PriorWorkEntry, b: PriorWorkEntry)
    requires
        a.label == b.label,
        a.evidence == b.evidence,
        a.named_check == b.named_check,
        match (a.relation, b.relation) {
            (DependencyRelation::Direct, DependencyRelation::Direct) => false,
            (
                DependencyRelation::Transitive { distance: m },
                DependencyRelation::Transitive { distance: n },
            ) => m@ != n@,
            _ => true,
        },
    ensures
        a.text() != b.text(),
{
    lemma_entry_parts(a);
    lemma_entry_parts(b);
    if a.text() == b.text() {
        lemma_part_decides(head(a), relation_line(a.relation), relation_line(b.relation), rest(a));
        reveal_strlit("\nRelation: same-plan direct dependency");
        reveal_strlit("\nRelation: same-plan transitive dependency (distance ");
        let la = relation_line(a.relation);
        let lb = relation_line(b.relation);
        match (a.relation, b.relation) {
            (DependencyRelation::Direct, DependencyRelation::Transitive { distance: n }) => {
                assert(la[21] == 'd');
                assert(lb[21] == 't');
            },
            (DependencyRelation::Transitive { distance: m }, DependencyRelation::Direct) => {
                assert(la[21] == 't');
                assert(lb[21] == 'd');
            },
            (
                DependencyRelation::Transitive { distance: m },
                DependencyRelation::Transitive { distance: n },
            ) => {
                lemma_part_decides(
                    "\nRelation: same-plan transitive dependency (distance "@,
                    numeral(m@ as nat),
                    numeral(n@ as nat),
                    ")"@,
                );
                law_numerals_tell_numbers_apart(m@ as nat, n@ as nat);
            },
            _ => {},
        }
    }
}

/// The text of a transitive entry holds the words and the numeral of its
/// distance; that of a direct entry says that it is direct.
pub proof fn law_relation_is_in_words(e: PriorWorkEntry)
    ensures
        match e.relation {
            DependencyRelation::Direct => contains_text(e.text(), "direct dependency"@),
            DependencyRelation::Transitive { distance } => {
                &&& contains_text(e.text(), "transitive dependency"@)
                &&& contains_text(e.text(), "distance "@ + numeral(distance@ as nat) + ")"@)
            },
        },
{
    lemma_entry_parts(e);
    let line = relation_line(e.relation);
    lemma_holds_in(e.text(), head(e), line, rest(e));
    match e.relation {
        DependencyRelation::Direct => {
            reveal_strlit("\nRelation: same-plan direct dependency");
            reveal_strlit("direct dependency");
            assert(line.subrange(21, 38) =~= "direct dependency"@);
            assert(occurs_at(line, "direct dependency"@, 21));
            lemma_holds_what_a_part_holds(e.text(), line, "direct dependency"@);
        },
        DependencyRelation::Transitive { distance } => {
            reveal_strlit("\nRelation: same-plan transitive dependency (distance ");
            reveal_strlit("transitive dependency");
            reveal_strlit("distance ");
            assert(line.subrange(21, 42) =~= "transitive dependency"@);
            assert(occurs_at(line, "transitive dependency"@, 21));
            lemma_holds_what_a_part_holds(e.text(), line, "transitive dependency"@);
            let told = "distance "@ + numeral(distance@ as nat) + ")"@;
            assert(line =~= line.take(44) + told + Seq::empty());
            lemma_holds_in(line, line.take(44), told, Seq::empty());
            lemma_holds_what_a_part_holds(e.text(), line, told);
        },
    }
}

/// What stands behind the number of an entry's task.
spec fn behind_task(e: PriorWorkEntry) -> Seq<char> {
    worker_line(role_text(e.label.worker)) + relation_line(e.relation) + rest(e)
}

proof fn lemma_behind_task(e: PriorWorkEntry)
    ensures
        e.text() == "Prior Task "@ + (numeral(e.label.task@ as nat) + behind_task(e)),
        behind_task(e).len() > 0,
        behind_task(e)[0] == '\n',
{
    lemma_entry_parts(e);
    let worker = worker_line(role_text(e.label.worker));
    let relation = relation_line(e.relation);
    assert(e.text() =~= "Prior Task "@ + (numeral(e.label.task@ as nat) + behind_task(e)));
    reveal_strlit("\nWorker: ");
    reveal_strlit("\nRelation: same-plan direct dependency");
    reveal_strlit("\nRelation: same-plan transitive dependency (distance ");
    assert(relation.len() > 0 && relation[0] == '\n');
    if worker.len() > 0 {
        assert(worker[0] == '\n');
    }
    assert(behind_task(e) =~= (worker + relation) + rest(e));
}

/// An entry begins with the number of its task, so entries of different tasks
/// never render alike, whatever else they hold.
pub proof fn law_task_is_told(a: PriorWorkEntry, b: PriorWorkEntry)
    requires
        a.text() == b.text(),
    ensures
        a.label.task@ == b.label.task@,
{
    lemma_behind_task(a);
    lemma_behind_task(b);
    let m = a.label.task@ as nat;
    let n = b.label.task@ as nat;
    let ta = numeral(m) + behind_task(a);
    let tb = numeral(n) + behind_task(b);
    assert("Prior Task "@ + ta + Seq::empty() =~= a.text());
    assert("Prior Task "@ + tb + Seq::empty() =~= b.text());
    lemma_part_decides("Prior Task "@, ta, tb, Seq::empty());
    lemma_opening_numerals(m, n, behind_task(a), behind_task(b));
}

/// The first line of an entry is "Prior Task" and the number of its task.
pub proof fn law_entry_opens_with_its_task(e: PriorWorkEntry)
    ensures
        ("Prior Task "@ + numeral(e.label.task@ as nat) + "\n"@).is_prefix_of(e.text()),
{
    reveal_strlit("\n");
    lemma_behind_task(e);
    let opening = "Prior Task "@ + numeral(e.label.task@ as nat);
    assert(e.text() =~= opening + behind_task(e));
    assert((opening + "\n"@) =~= e.text().take((opening.len() + 1) as int));
}

/// The role of the worker stands in the entry.
pub proof fn law_worker_is_told(e: PriorWorkEntry, role: WorkerRole)
    requires
        e.label.worker == Some(role),
    ensures
        contains_text(e.text(), "Worker: "@ + role@),
{
    reveal_strlit("\nWorker: ");
    reveal_strlit("Worker: ");
    let told = "Worker: "@ + role@;
    let before = "Prior Task "@ + numeral(e.label.task@ as nat) + "\n"@;
    reveal_strlit("\n");
    assert(worker_line(Some(role@)) =~= "\n"@ + told);
    assert(e.text() =~= before + told + (relation_line(e.relation) + rest(e)));
    lemma_holds_in(e.text(), before, told, relation_line(e.relation) + rest(e));
}

/// A claim is told with its summary and, in the same place, its confidence:
/// the words are high, medium and low.
pub proof fn law_claim_is_told(e: PriorWorkEntry, claim: WorkerClaim)
    requires
        match e.evidence {
            EvidenceEntry::InlineResult { result, claim: c } => c == Some(claim),
            EvidenceEntry::ArtifactPointer { stand_in, artifact } => stand_in
                == ArtifactStandIn::Claim(claim),
            EvidenceEntry::ArtifactPointerOnly { artifact } => false,
            EvidenceEntry::SummaryOnly { claim: c } => c == claim,
        },
    ensures
        contains_text(
            e.text(),
            "\nSummary: "@ + claim.summary_text() + "\nConfidence: "@ + (
            match claim.stated_confidence() {
                Confidence::High => "high"@,
                Confidence::Medium => "medium"@,
                Confidence::Low => "low"@,
            }),
        ),
{
    let told = "\nSummary: "@ + claim.summary_text() + "\nConfidence: "@ + (
    match claim.stated_confidence() {
        Confidence::High => "high"@,
        Confidence::Medium => "medium"@,
        Confidence::Low => "low"@,
    });
    let before = head(e) + relation_line(e.relation);
    let after = "\nEvidence:"@ + evidence_lines(e.evidence.body_text()) + declared_check_line(
        e.named_check,
    ) + spill_line(e.evidence.spill_footer());
    assert(claim_lines(e.evidence.carried_claim()) == told);
    assert(e.text() =~= before + told + after);
    lemma_holds_in(e.text(), before, told, after);
}

/// A part of a text that lies on one line lies on one of the text's lines.
proof fn lemma_on_a_line(s: Seq<char>, part: Seq<char>) -> (k: int)
    requires
        contains_text(s, part),
        on_one_line(part),
    ensures
        0 <= k < lines(s).len(),
        contains_text(lines(s)[k], part),
    decreases s.len(),
{
    let i = choose|i: int| occurs_at(s, part, i);
    lemma_line_end(s);
    let n = line_end(s) as int;
    assert forall|j: int| 0 <= j < part.len() implies s[i + j] == part[j] by {
        assert(s.subrange(i, i + part.len())[j] == s[i + j]);
    }
    if n >= s.len() {
        assert(lines(s) =~= seq![s]);
        0
    } else if i > n {
        let tail = s.skip(n + 1);
        assert(tail.subrange(i - n - 1, i - n - 1 + part.len()) =~= part);
        assert(occurs_at(tail, part, i - n - 1));
        let k = lemma_on_a_line(tail, part);
        assert(lines(s)[k + 1] == lines(tail)[k]);
        k + 1
    } else {
        if i + part.len() > n {
            assert(s[i + (n - i)] == part[n - i]);
        }
        let line = lines(s)[0];
        if n > 0 && s[n - 1] == '\r' && i + part.len() == n {
            assert(s[i + (part.len() - 1)] == part[part.len() - 1]);
        }
        assert(line =~= s.take(n) || line =~= s.take(n - 1));
        assert(line.subrange(i, i + part.len()) =~= part);
        assert(occurs_at(line, part, i));
        0
    }
}

/// Indenting a text hides nothing that stands on one line.
pub proof fn law_indenting_keeps_each_line(text: Seq<char>, part: Seq<char>)
    requires
        contains_text(text, part),
        on_one_line(part),
    ensures
        contains_text(indented(text), part),
{
    let k = lemma_on_a_line(text, part);
    let shown = indented_lines(lines(text));
    law_joined_holds_each_part(shown, "\n"@, k);
    let line = lines(text)[k];
    assert(shown[k] =~= "    "@ + line + Seq::empty());
    lemma_holds_in(shown[k], "    "@, line, Seq::empty());
    lemma_holds_what_a_part_holds(shown[k], line, part);
    lemma_holds_what_a_part_holds(indented(text), shown[k], part);
}

/// The evidence is told: whatever stands on one line of an inline result, of
/// a preview or of an attested summary stands in the entry.
pub proof fn law_evidence_is_told(e: PriorWorkEntry, part: Seq<char>)
    requires
        on_one_line(part),
        !is_blank(part),
        match e.evidence {
            EvidenceEntry::InlineResult { result, claim } => contains_text(result@, part),
            EvidenceEntry::ArtifactPointer { stand_in, artifact } => match stand_in {
                ArtifactStandIn::Claim(claim) => contains_text(claim.summary_text(), part),
                ArtifactStandIn::Preview(preview) => contains_text(preview@, part),
            },
            EvidenceEntry::ArtifactPointerOnly { artifact } => part == "(no inline preview)"@,
            EvidenceEntry::SummaryOnly { claim } => contains_text(claim.summary_text(), part),
        },
    ensures
        contains_text(e.text(), part),
{
    let body = e.evidence.body_text();
    if e.evidence is ArtifactPointerOnly {
        assert(body =~= Seq::empty() + part + Seq::empty());
        lemma_holds_in(body, Seq::empty(), part, Seq::empty());
    }
    assert(contains_text(body, part));
    if is_blank(body) {
        let i = choose|i: int| occurs_at(body, part, i);
        assert forall|j: int| 0 <= j < part.len() implies part[j] == body[i + j] by {
            assert(body.subrange(i, i + part.len())[j] == body[i + j]);
        }
    }
    law_indenting_keeps_each_line(body, part);
    let shown = indented(body);
    let before = head(e) + relation_line(e.relation) + claim_lines(e.evidence.carried_claim())
        + "\nEvidence:"@ + "\n"@;
    let after = declared_check_line(e.named_check) + spill_line(e.evidence.spill_footer());
    assert(e.text() =~= before + shown + after);
    lemma_holds_in(e.text(), before, shown, after);
    lemma_holds_what_a_part_holds(e.text(), shown, part);
}

/// What stands before the declared check of an entry.
spec fn before_check(e: PriorWorkEntry) -> Seq<char> {
    head(e) + relation_line(e.relation) + claim_lines(e.evidence.carried_claim())
        + "\nEvidence:"@ + evidence_lines(e.evidence.body_text())
}

/// What a part holds that stands behind a line feed, the text holds.
proof fn lemma_behind_line_feed(
    text: Seq<char>,
    before: Seq<char>,
    shown: Seq<char>,
    after: Seq<char>,
    held: Seq<char>,
)
    requires
        text == before + ("\n"@ + shown) + after,
        contains_text(shown, held),
    ensures
        contains_text(text, held),
{
    assert(text =~= (before + "\n"@) + shown + after);
    lemma_holds_in(text, before + "\n"@, shown, after);
    lemma_holds_what_a_part_holds(text, shown, held);
}

/// A line that is indented in a text stands in it.
proof fn lemma_indented_line(
    text: Seq<char>,
    before: Seq<char>,
    line: Seq<char>,
    after: Seq<char>,
)
    requires
        text == before + ("\n"@ + indented(line)) + after,
        on_one_line(line),
    ensures
        contains_text(text, line),
{
    lemma_holds_itself(line);
    law_indenting_keeps_each_line(line, line);
    lemma_behind_line_feed(text, before, indented(line), after, line);
}

proof fn lemma_holds_itself(line: Seq<char>)
    ensures
        contains_text(line, line),
{
    assert(line.subrange(0, line.len() as int) =~= line);
    assert(occurs_at(line, line, 0));
}

proof fn lemma_entry_end(e: PriorWorkEntry)
    ensures
        e.text() == before_check(e) + declared_check_line(e.named_check) + spill_line(
            e.evidence.spill_footer(),
        ),
{
    assert(e.text() =~= before_check(e) + declared_check_line(e.named_check) + spill_line(
        e.evidence.spill_footer(),
    ));
}

proof fn lemma_footer_on_one_line(file: Seq<char>, chars: usize)
    requires
        on_one_line(file),
    ensures
        on_one_line(footer_text(file, chars)),
{
    let footer = footer_text(file, chars);
    let digits = numeral(chars as nat);
    reveal_strlit("[Full result (");
    reveal_strlit(" chars) saved to artifact: ");
    reveal_strlit("]");
    lemma_numeral_digits(chars as nat);
    assert forall|i: int| 0 <= i < footer.len() implies #[trigger] footer[i] != '\n' && footer[i]
        != '\r' by {
        let m = digits.len() as int;
        if i < 14 {
            assert(footer[i] == FOOTER_PREFIX@[i]);
        } else if i < 14 + m {
            assert(footer[i] == digits[i - 14]);
            assert(digit_value(digits[i - 14]) is Some);
        } else if i < 14 + m + 27 {
            assert(footer[i] == FOOTER_INFIX@[i - 14 - m]);
        } else if i < footer.len() - 1 {
            assert(footer[i] == file[i - 14 - m - 27]);
        }
    }
}

/// A spilled result is told by the file and the length of the whole result,
/// on the last lines of the entry.
pub proof fn law_artifact_is_told(e: PriorWorkEntry, file: SpilledArtifact)
    requires
        match e.evidence {
            EvidenceEntry::ArtifactPointer { stand_in, artifact } => artifact == file,
            EvidenceEntry::ArtifactPointerOnly { artifact } => artifact == file,
            _ => false,
        },
        on_one_line(file.file()),
    ensures
        contains_text(
            e.text(),
            "[Full result ("@ + numeral(file.chars() as nat) + " chars) saved to artifact: "@
                + file.file() + "]"@,
        ),
{
    let footer = "[Full result ("@ + numeral(file.chars() as nat)
        + " chars) saved to artifact: "@ + file.file() + "]"@;
    assert(footer == footer_text(file.file(), file.chars()));
    lemma_footer_on_one_line(file.file(), file.chars());
    let check = declared_check_line(e.named_check);
    assert(spill_line(e.evidence.spill_footer()) == "\n"@ + indented(footer));
    lemma_entry_end(e);
    let text = e.text();
    let before = before_check(e) + check;
    assert(text =~= before + ("\n"@ + indented(footer)) + Seq::empty());
    lemma_indented_line(text, before, footer, Seq::empty());
}

proof fn lemma_check_on_one_line(identity: Seq<char>, outcome: Seq<char>)
    requires
        on_one_line(identity),
        on_one_line(outcome),
    ensures
        on_one_line("[Check: "@ + identity + " -> "@ + outcome + "]"@),
{
    let line = "[Check: "@ + identity + " -> "@ + outcome + "]"@;
    reveal_strlit("[Check: ");
    reveal_strlit(" -> ");
    reveal_strlit("]");
    assert forall|i: int| 0 <= i < line.len() implies #[trigger] line[i] != '\n' && line[i]
        != '\r' by {
        let m = identity.len() as int;
        if i < 8 {
            assert(line[i] == "[Check: "@[i]);
        } else if i < 8 + m {
            assert(line[i] == identity[i - 8]);
        } else if i < 12 + m {
            assert(line[i] == " -> "@[i - 8 - m]);
        } else if i < line.len() - 1 {
            assert(line[i] == outcome[i - 12 - m]);
        }
    }
}

/// The declared check is told with its outcome: its identity, and behind it
/// its result, or that it was not run.
pub proof fn law_check_is_told(e: PriorWorkEntry, check: NamedCheck)
    requires
        e.named_check == Some(check),
        on_one_line(check.identity_text()),
        check.result_text() matches Some(result) ==> on_one_line(result),
    ensures
        contains_text(
            e.text(),
            "[Check: "@ + check.identity_text() + " -> "@ + (match check.result_text() {
                Some(result) => result,
                None => "NOT RUN"@,
            }) + "]"@,
        ),
{
    let outcome = match check.result_text() {
        Some(result) => result,
        None => "NOT RUN"@,
    };
    let line = "[Check: "@ + check.identity_text() + " -> "@ + outcome + "]"@;
    assert(line == check_line(check.identity_text(), check.result_text()));
    reveal_strlit("NOT RUN");
    lemma_check_on_one_line(check.identity_text(), outcome);
    lemma_entry_end(e);
    let text = e.text();
    let after = spill_line(e.evidence.spill_footer());
    assert(text == before_check(e) + ("\n"@ + indented(line)) + after);
    lemma_indented_line(text, before_check(e), line, after);
}

/// A frame begins with its heading and holds the whole text of each of its
/// entries; a frame without entries is the heading alone.
pub proof fn law_frame_shows_its_entries(entries: Seq<PriorWorkEntry>)
    ensures
        "READ-ONLY PRIOR WORK\n"@.is_prefix_of(frame_text(entries)),
        forall|i: int|
            0 <= i < entries.len() ==> contains_text(
                frame_text(entries),
                (#[trigger] entries[i]).text(),
            ),
{
    reveal_strlit("READ-ONLY PRIOR WORK\n");
    reveal_strlit("READ-ONLY PRIOR WORK");
    reveal_strlit("\n");
    let text = frame_text(entries);
    assert("READ-ONLY PRIOR WORK\n"@ =~= text.take(21));
    assert forall|i: int| 0 <= i < entries.len() implies contains_text(
        text,
        (#[trigger] entries[i]).text(),
    ) by {
        let texts = entry_texts(entries);
        law_joined_holds_each_part(texts, FRAME_SEPARATOR@, i);
        let all = joined(texts, FRAME_SEPARATOR@);
        let before = FRAME_HEADER@ + "\n"@ + FRAME_SUBTITLE@ + "\n\n"@;
        assert(text =~= before + all + Seq::empty());
        lemma_holds_in(text, before, all, Seq::empty());
        assert(texts[i] == entries[i].text());
        lemma_holds_what_a_part_holds(text, all, entries[i].text());
    }
}

} // verus!
