//! What the rendered entries of completed, failed and blocked tasks tell the
//! coordinator.
use super::entry_laws::{law_indenting_keeps_each_line, on_one_line};
use super::evidence::{
    artifact_footer, claim_confidence, entry_head, footer_line, footer_text, indented,
    inventory_lines, inventory_text, label_suffix_text, ArtifactRef, ArtifactStandIn, BlockedEntry,
    CompletedEntry, EvidenceEntry, FailedEntry, FailureReport, SpilledArtifact,
};
use super::label::{role_text, CorrelationLabel, WorkerClaim, WorkerRole};
use crate::orchestration::types::{Confidence, FailureCategory};
use crate::text::numerals::{digit_value, numeral};
use crate::text::parts::{
    lemma_holds_in, lemma_holds_what_a_part_holds, lemma_opening_numerals, lemma_part_decides,
};
use crate::text::search::contains_text;
use vstd::prelude::*;

verus! {

/// The word for a confidence.
pub open spec fn confidence_word(c: Confidence) -> Seq<char> {
    match c {
        Confidence::High => "high"@,
        Confidence::Medium => "medium"@,
        Confidence::Low => "low"@,
    }
}

/// The word for a kind of failure.
pub open spec fn category_word(c: FailureCategory) -> Seq<char> {
    match c {
        FailureCategory::AgentTimeout => "agent_timeout"@,
        FailureCategory::ContextOverflow => "context_overflow"@,
        FailureCategory::DepthExhausted => "depth_exhausted"@,
        FailureCategory::LoopDetected => "loop_detected"@,
        FailureCategory::ProviderOverloaded => "provider_overloaded"@,
        FailureCategory::ProviderAuthError => "provider_auth_error"@,
        FailureCategory::ProviderNotFound => "provider_not_found"@,
        FailureCategory::DependencyFailed => "dependency_failed"@,
        FailureCategory::SoftFailure => "soft_failure"@,
        FailureCategory::AgentError => "agent_error"@,
    }
}

/// A text that opens with a task and goes on with no digit.
proof fn lemma_head(label: CorrelationLabel, confidence: Option<Confidence>, more: Seq<char>)
    requires
        more.len() > 0,
        more[0] == ' ' || more[0] == '\n',
    ensures
        ({
            let tail = label_suffix_text(role_text(label.worker), confidence) + more;
            &&& entry_head(label, confidence) + more == "- Task "@ + (numeral(label.task@ as nat)
                + tail)
            &&& tail.len() > 0
            &&& digit_value(tail[0]) is None
        }),
{
    let suffix = label_suffix_text(role_text(label.worker), confidence);
    let tail = suffix + more;
    assert(entry_head(label, confidence) + more =~= "- Task "@ + (numeral(label.task@ as nat)
        + tail));
    reveal_strlit(" (");
    reveal_strlit(" (confidence: ");
    if suffix.len() > 0 {
        assert(suffix[0] == ' ');
        assert(tail[0] == ' ');
    } else {
        assert(tail =~= more);
    }
}

proof fn lemma_same_task(m: nat, n: nat, a: Seq<char>, b: Seq<char>)
    requires
        "- Task "@ + (numeral(m) + a) == "- Task "@ + (numeral(n) + b),
        a.len() > 0,
        b.len() > 0,
        digit_value(a[0]) is None,
        digit_value(b[0]) is None,
    ensures
        m == n,
{
    let (x, y) = (numeral(m) + a, numeral(n) + b);
    assert("- Task "@ + x + Seq::empty() =~= "- Task "@ + x);
    assert("- Task "@ + y + Seq::empty() =~= "- Task "@ + y);
    lemma_part_decides("- Task "@, x, y, Seq::empty());
    lemma_opening_numerals(m, n, a, b);
}

/// What follows the head of a completed task's entry.
spec fn completed_rest(e: CompletedEntry) -> Seq<char> {
    "\n"@ + indented(e.evidence.body_text()) + footer_line(e.evidence.spill_footer())
        + inventory_lines(e.artifacts@)
}

proof fn lemma_completed(e: CompletedEntry)
    ensures
        e.text() == entry_head(e.label, claim_confidence(e.evidence.carried_claim()))
            + completed_rest(e),
        completed_rest(e).len() > 0,
        completed_rest(e)[0] == '\n',
{
    reveal_strlit("\n");
    assert(e.text() =~= entry_head(e.label, claim_confidence(e.evidence.carried_claim()))
        + completed_rest(e));
}

/// What follows the head of a failed task's entry.
spec fn failed_rest(e: FailedEntry) -> Seq<char> {
    match e.report {
        FailureReport::Hard { category, error } => " -> failed ["@ + category.name() + "]: "@
            + error.shown(),
        FailureReport::Soft { claim, artifact } => " -> soft_failure ("@
            + claim.stated_confidence().name() + " confidence)\n"@ + indented(
            claim.summary_text(),
        ) + footer_line(artifact_footer(artifact)),
    }
}

proof fn lemma_failed(e: FailedEntry)
    ensures
        e.text() == entry_head(e.label, None) + failed_rest(e),
        failed_rest(e).len() > 0,
        failed_rest(e)[0] == ' ',
{
    reveal_strlit(" -> failed [");
    reveal_strlit(" -> soft_failure (");
    assert(e.text() =~= entry_head(e.label, None) + failed_rest(e));
}

/// Entries of different tasks never render alike, whatever became of them.
pub proof fn law_completed_task_is_told(a: CompletedEntry, b: CompletedEntry)
    requires
        a.text() == b.text(),
    ensures
        a.label.task@ == b.label.task@,
{
    lemma_completed(a);
    lemma_completed(b);
    let (ca, cb) = (
        claim_confidence(a.evidence.carried_claim()),
        claim_confidence(b.evidence.carried_claim()),
    );
    lemma_head(a.label, ca, completed_rest(a));
    lemma_head(b.label, cb, completed_rest(b));
    lemma_same_task(
        a.label.task@ as nat,
        b.label.task@ as nat,
        label_suffix_text(role_text(a.label.worker), ca) + completed_rest(a),
        label_suffix_text(role_text(b.label.worker), cb) + completed_rest(b),
    );
}

/// Entries of different failed tasks never render alike.
pub proof fn law_failed_task_is_told(a: FailedEntry, b: FailedEntry)
    requires
        a.text() == b.text(),
    ensures
        a.label.task@ == b.label.task@,
{
    lemma_failed(a);
    lemma_failed(b);
    lemma_head(a.label, None, failed_rest(a));
    lemma_head(b.label, None, failed_rest(b));
    lemma_same_task(
        a.label.task@ as nat,
        b.label.task@ as nat,
        label_suffix_text(role_text(a.label.worker), None) + failed_rest(a),
        label_suffix_text(role_text(b.label.worker), None) + failed_rest(b),
    );
}

/// Entries of different blocked tasks never render alike, and each says why
/// it was blocked.
pub proof fn law_blocked_task_is_told(a: BlockedEntry, b: BlockedEntry)
    ensures
        a.text() == b.text() ==> a.label.task@ == b.label.task@,
        contains_text(a.text(), "blocked (dependency failed)"@),
{
    let why = " -> blocked (dependency failed)"@;
    reveal_strlit(" -> blocked (dependency failed)");
    lemma_head(a.label, None, why);
    lemma_head(b.label, None, why);
    if a.text() == b.text() {
        lemma_same_task(
            a.label.task@ as nat,
            b.label.task@ as nat,
            label_suffix_text(role_text(a.label.worker), None) + why,
            label_suffix_text(role_text(b.label.worker), None) + why,
        );
    }
    reveal_strlit("blocked (dependency failed)");
    let words = "blocked (dependency failed)"@;
    let before = entry_head(a.label, None) + why.take(4);
    assert(why =~= why.take(4) + words);
    assert(a.text() =~= before + words + Seq::empty());
    lemma_holds_in(a.text(), before, words, Seq::empty());
}

/// The worker of a completed, failed or blocked task is told.
pub proof fn law_status_worker_is_told(label: CorrelationLabel, role: WorkerRole, c: CompletedEntry, f: FailedEntry, b: BlockedEntry)
    requires
        label.worker == Some(role),
        c.label == label,
        f.label == label,
        b.label == label,
    ensures
        contains_text(c.text(), role@),
        contains_text(f.text(), role@),
        contains_text(b.text(), role@),
{
    lemma_completed(c);
    lemma_failed(f);
    lemma_worker_in_head(
        label,
        role,
        claim_confidence(c.evidence.carried_claim()),
        completed_rest(c),
    );
    lemma_worker_in_head(label, role, None, failed_rest(f));
    lemma_worker_in_head(label, role, None, " -> blocked (dependency failed)"@);
}

proof fn lemma_worker_in_head(
    label: CorrelationLabel,
    role: WorkerRole,
    confidence: Option<Confidence>,
    more: Seq<char>,
)
    requires
        label.worker == Some(role),
    ensures
        contains_text(entry_head(label, confidence) + more, role@),
{
    let opening = "- Task "@ + numeral(label.task@ as nat) + " ("@;
    let closing = match confidence {
        Some(c) => ", confidence: "@ + c.name() + ")"@,
        None => ")"@,
    };
    let text = entry_head(label, confidence) + more;
    assert(text =~= opening + role@ + (closing + more));
    lemma_holds_in(text, opening, role@, closing + more);
}

/// The confidence that a worker attested with a completed result is told, in
/// words.
pub proof fn law_confidence_is_told(e: CompletedEntry, claim: WorkerClaim)
    requires
        match e.evidence {
            EvidenceEntry::InlineResult { result, claim: c } => c == Some(claim),
            EvidenceEntry::ArtifactPointer { stand_in, artifact } => stand_in
                == ArtifactStandIn::Claim(claim),
            EvidenceEntry::ArtifactPointerOnly { artifact } => false,
            EvidenceEntry::SummaryOnly { claim: c } => c == claim,
        },
    ensures
        contains_text(
            e.text(),
            "confidence: "@ + confidence_word(claim.stated_confidence()) + ")"@,
        ),
{
    lemma_completed(e);
    let told = "confidence: "@ + confidence_word(claim.stated_confidence()) + ")"@;
    reveal_strlit("confidence: ");
    reveal_strlit(", confidence: ");
    reveal_strlit(" (confidence: ");
    reveal_strlit(" (");
    reveal_strlit(", ");
    let rest = completed_rest(e);
    let opening = "- Task "@ + numeral(e.label.task@ as nat);
    match e.label.worker {
        Some(role) => {
            assert(", confidence: "@ =~= ", "@ + "confidence: "@);
            let before = opening + " ("@ + role@ + ", "@;
            assert(e.text() =~= before + told + rest);
            lemma_holds_in(e.text(), before, told, rest);
        },
        None => {
            assert(" (confidence: "@ =~= " ("@ + "confidence: "@);
            let before = opening + " ("@;
            assert(e.text() =~= before + told + rest);
            lemma_holds_in(e.text(), before, told, rest);
        },
    }
}

/// What a completed task's worker reported is told, line for line.
pub proof fn law_report_is_told(e: CompletedEntry, part: Seq<char>)
    requires
        on_one_line(part),
        match e.evidence {
            EvidenceEntry::InlineResult { result, claim } => contains_text(result@, part),
            EvidenceEntry::ArtifactPointer { stand_in, artifact } => match stand_in {
                ArtifactStandIn::Claim(claim) => contains_text(claim.summary_text(), part),
                ArtifactStandIn::Preview(preview) => contains_text(preview@, part),
            },
            EvidenceEntry::ArtifactPointerOnly { artifact } => false,
            EvidenceEntry::SummaryOnly { claim } => contains_text(claim.summary_text(), part),
        },
    ensures
        contains_text(e.text(), part),
{
    let body = e.evidence.body_text();
    law_indenting_keeps_each_line(body, part);
    let before = entry_head(e.label, claim_confidence(e.evidence.carried_claim())) + "\n"@;
    let after = footer_line(e.evidence.spill_footer()) + inventory_lines(e.artifacts@);
    let shown = indented(body);
    assert(e.text() =~= before + shown + after);
    lemma_holds_in(e.text(), before, shown, after);
    lemma_holds_what_a_part_holds(e.text(), shown, part);
}

/// A spilled result of a completed task is told by its file and its length.
pub proof fn law_spilled_report_is_told(e: CompletedEntry, file: SpilledArtifact)
    requires
        match e.evidence {
            EvidenceEntry::ArtifactPointer { stand_in, artifact } => artifact == file,
            EvidenceEntry::ArtifactPointerOnly { artifact } => artifact == file,
            _ => false,
        },
    ensures
        contains_text(
            e.text(),
            "[Full result ("@ + numeral(file.chars() as nat) + " chars) saved to artifact: "@
                + file.file() + "]"@,
        ),
{
    let footer = footer_text(file.file(), file.chars());
    let before = entry_head(e.label, claim_confidence(e.evidence.carried_claim())) + "\n"@
        + indented(e.evidence.body_text()) + "\n    "@;
    let after = inventory_lines(e.artifacts@);
    assert(e.evidence.spill_footer() == Some(footer));
    assert(e.text() =~= before + footer + after);
    lemma_holds_in(e.text(), before, footer, after);
}

proof fn lemma_inventory(artifacts: Seq<ArtifactRef>, i: int)
    requires
        0 <= i < artifacts.len(),
    ensures
        contains_text(
            inventory_lines(artifacts),
            inventory_text(artifacts[i].file(), artifacts[i].size()),
        ),
    decreases artifacts.len(),
{
    let last = artifacts.last();
    let line = inventory_text(last.file(), last.size());
    let before = inventory_lines(artifacts.drop_last());
    let all = inventory_lines(artifacts);
    if i == artifacts.len() - 1 {
        assert(all =~= (before + "\n    "@) + line + Seq::empty());
        lemma_holds_in(all, before + "\n    "@, line, Seq::empty());
    } else {
        lemma_inventory(artifacts.drop_last(), i);
        assert(artifacts.drop_last()[i] == artifacts[i]);
        assert(all =~= Seq::empty() + before + ("\n    "@ + line));
        lemma_holds_in(all, Seq::empty(), before, "\n    "@ + line);
        lemma_holds_what_a_part_holds(
            all,
            before,
            inventory_text(artifacts[i].file(), artifacts[i].size()),
        );
    }
}

/// Every artifact of a completed task is told, by its file and its size.
pub proof fn law_inventory_is_told(e: CompletedEntry, i: int)
    requires
        0 <= i < e.artifacts@.len(),
    ensures
        contains_text(
            e.text(),
            "[Artifact: "@ + e.artifacts@[i].file() + " ("@ + numeral(
                e.artifacts@[i].size() as nat,
            ) + " bytes)]"@,
        ),
{
    let line = inventory_text(e.artifacts@[i].file(), e.artifacts@[i].size());
    lemma_inventory(e.artifacts@, i);
    let before = entry_head(e.label, claim_confidence(e.evidence.carried_claim())) + "\n"@
        + indented(e.evidence.body_text()) + footer_line(e.evidence.spill_footer());
    let list = inventory_lines(e.artifacts@);
    assert(e.text() =~= before + list + Seq::empty());
    lemma_holds_in(e.text(), before, list, Seq::empty());
    lemma_holds_what_a_part_holds(e.text(), list, line);
}

/// A failed task's entry says how it failed: a hard failure with its category
/// and the bounded error, a soft one with the stated confidence and, line for
/// line, the summary.
pub proof fn law_failure_is_told(e: FailedEntry, part: Seq<char>)
    ensures
        match e.report {
            FailureReport::Hard { category, error } => contains_text(
                e.text(),
                "failed ["@ + category_word(category) + "]: "@ + error.bounded_text(),
            ),
            FailureReport::Soft { claim, artifact } => {
                &&& contains_text(
                    e.text(),
                    "soft_failure ("@ + confidence_word(claim.stated_confidence())
                        + " confidence)"@,
                )
                &&& on_one_line(part) && contains_text(claim.summary_text(), part)
                    ==> contains_text(e.text(), part)
                &&& artifact matches Some(file) ==> contains_text(e.text(), file.file())
            },
        },
{
    lemma_failed(e);
    let head = entry_head(e.label, None);
    match e.report {
        FailureReport::Hard { category, error } => {
            reveal_strlit(" -> failed [");
            reveal_strlit("failed [");
            let told = "failed ["@ + category_word(category) + "]: "@ + error.bounded_text();
            let before = head + " -> failed ["@.take(4);
            assert(" -> failed ["@ =~= " -> failed ["@.take(4) + "failed ["@);
            let after = error.shown().skip(error.bounded_text().len() as int);
            assert(error.shown() =~= error.bounded_text() + after);
            assert(e.text() =~= before + told + after);
            lemma_holds_in(e.text(), before, told, after);
        },
        FailureReport::Soft { claim, artifact } => {
            lemma_soft(e, claim, artifact, part);
        },
    }
}

proof fn lemma_soft(
    e: FailedEntry,
    claim: WorkerClaim,
    artifact: Option<SpilledArtifact>,
    part: Seq<char>,
)
    requires
        e.report == (FailureReport::Soft { claim, artifact }),
    ensures
        contains_text(
            e.text(),
            "soft_failure ("@ + confidence_word(claim.stated_confidence()) + " confidence)"@,
        ),
        on_one_line(part) && contains_text(claim.summary_text(), part) ==> contains_text(
            e.text(),
            part,
        ),
        artifact matches Some(file) ==> contains_text(e.text(), file.file()),
{
    lemma_failed(e);
    let head = entry_head(e.label, None);
    reveal_strlit(" -> soft_failure (");
    reveal_strlit("soft_failure (");
    reveal_strlit(" confidence)");
    reveal_strlit(" confidence)\n");
    reveal_strlit("\n");
    let word = confidence_word(claim.stated_confidence());
    let told = "soft_failure ("@ + word + " confidence)"@;
    let before = head + " -> soft_failure ("@.take(4);
    assert(" -> soft_failure ("@ =~= " -> soft_failure ("@.take(4) + "soft_failure ("@);
    assert(" confidence)\n"@ =~= " confidence)"@ + "\n"@);
    let shown = indented(claim.summary_text());
    let footer = footer_line(artifact_footer(artifact));
    assert(e.text() =~= before + told + ("\n"@ + shown + footer));
    lemma_holds_in(e.text(), before, told, "\n"@ + shown + footer);
    if on_one_line(part) && contains_text(claim.summary_text(), part) {
        law_indenting_keeps_each_line(claim.summary_text(), part);
        assert(e.text() =~= (before + told + "\n"@) + shown + footer);
        lemma_holds_in(e.text(), before + told + "\n"@, shown, footer);
        lemma_holds_what_a_part_holds(e.text(), shown, part);
    }
    match artifact {
        Some(file) => {
            let line = footer_text(file.file(), file.chars());
            let start = before + told + "\n"@ + shown;
            assert(e.text() =~= start + footer + Seq::empty());
            lemma_holds_in(e.text(), start, footer, Seq::empty());
            lemma_file_in_footer(file.file(), file.chars());
            lemma_holds_what_a_part_holds(e.text(), footer, file.file());
        },
        None => {},
    }
}

proof fn lemma_file_in_footer(file: Seq<char>, chars: usize)
    ensures
        contains_text(footer_line(Some(footer_text(file, chars))), file),
{
    let before = "\n    "@ + "[Full result ("@ + numeral(chars as nat)
        + " chars) saved to artifact: "@;
    let text = footer_line(Some(footer_text(file, chars)));
    assert(text =~= before + file + "]"@);
    lemma_holds_in(text, before, file, "]"@);
}

} // verus!
