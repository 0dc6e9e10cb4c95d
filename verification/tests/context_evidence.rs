//! Evidence-framed entries.
use aura::orchestration::context::{
    ArtifactRef, ArtifactStandIn, BlockedEntry, CompletedEntry, ContextError, CorrelationLabel,
    ErrorPreview, EvidenceEntry, EvidenceText, FailedEntry, FailureReport, NamedCheck,
    ResultPreview, SpilledArtifact, TaskId, WorkerClaim, WorkerRole,
};
use aura::orchestration::types::{Confidence, FailureCategory};

const FOOTER: &str =
    "[Full result (5000 chars) saved to artifact: task-0-operator-iter-1-result.txt]";

fn claim() -> WorkerClaim {
    WorkerClaim::new("Found 47 error groups across 3 services", Confidence::High)
        .expect("non-empty summary")
}

fn label(worker: Option<&str>) -> CorrelationLabel {
    CorrelationLabel {
        task: TaskId::new(0),
        worker: worker.map(|w| WorkerRole::new(w).expect("non-empty role")),
    }
}
#[test]
fn degrade_paths_are_mutually_exclusive() {
    let body = "b".repeat(100);
    let spilled = format!("{body}\n\n{FOOTER}");
    let entry = EvidenceEntry::from_completed_result(&spilled, Some(claim()))
        .expect("spilled result parses");
    assert!(
        matches!(entry, EvidenceEntry::ArtifactPointer { .. }),
        "footered text must take the artifact-pointer path"
    );
    assert_eq!(
        EvidenceText::new(&spilled),
        Err(ContextError::InlineEvidenceCarriesSpillFooter)
    );
    let rendered = CompletedEntry {
        label: label(Some("operator")),
        evidence: entry,
        artifacts: vec![],
    }
    .render();
    let rendered = rendered.as_str();
    assert_eq!(rendered.matches("[Full result (").count(), 1);
    assert!(rendered.contains("Found 47 error groups"));
    assert!(
        !rendered.contains(&body),
        "raw body must not render next to the attested summary"
    );
    let inline = EvidenceEntry::from_completed_result("all checks passed", Some(claim()))
        .expect("fitting result parses");
    let rendered = CompletedEntry {
        label: label(Some("operator")),
        evidence: inline,
        artifacts: vec![],
    }
    .render();
    assert!(rendered.as_str().contains("    all checks passed"));
    assert!(!rendered.as_str().contains("[Full result ("));
    let long = "e".repeat(ErrorPreview::MAX_CHARS + 1000);
    let preview = ErrorPreview::new(&long);
    assert!(preview.was_truncated());
    assert_eq!(preview.as_str().chars().count(), ErrorPreview::MAX_CHARS);
    let shown = preview.to_string();
    assert!(shown.ends_with(ErrorPreview::TRUNCATION_MARKER));
    assert_eq!(shown.matches(ErrorPreview::TRUNCATION_MARKER).count(), 1);

    let short = ErrorPreview::new("Connection refused");
    assert!(!short.was_truncated());
    assert_eq!(short.to_string(), "Connection refused");
}
#[test]
fn full_result_stays_inline_when_it_fits_despite_claim() {
    let entry =
        EvidenceEntry::from_completed_result("Full detailed worker result", Some(claim()))
            .expect("fitting result parses");
    let EvidenceEntry::InlineResult { result, claim } = entry else {
        panic!("fitting result must parse inline, got {entry:?}");
    };
    assert_eq!(result.as_str(), "Full detailed worker result");
    assert!(claim.is_some(), "the claim rides along without replacing");
}

#[test]
fn spilled_result_without_claim_uses_bounded_preview_stand_in() {
    let spilled = format!("Bounded preview text.\n\n{FOOTER}");
    let entry =
        EvidenceEntry::from_completed_result(&spilled, None).expect("spilled result parses");
    let EvidenceEntry::ArtifactPointer { stand_in, artifact } = entry else {
        panic!("footered text must take the artifact-pointer path, got {entry:?}");
    };
    let ArtifactStandIn::Preview(preview) = stand_in else {
        panic!("no claim means the bounded preview stands in");
    };
    assert_eq!(preview.as_str(), "Bounded preview text.");
    assert_eq!(artifact.filename(), "task-0-operator-iter-1-result.txt");
    assert_eq!(artifact.to_string(), FOOTER);
}

#[test]
fn malformed_footer_stays_inline() {
    let text = "mentions [Full result ( but is not a footer";
    assert!(SpilledArtifact::parse_trailing(text).is_none());
    let entry = EvidenceEntry::from_completed_result(text, None).expect("parses inline");
    assert!(matches!(entry, EvidenceEntry::InlineResult { .. }));
}

#[test]
fn empty_values_are_rejected() {
    assert_eq!(
        EvidenceText::new("  \n"),
        Err(ContextError::EmptyEvidenceText)
    );
    assert_eq!(
        ResultPreview::new(""),
        Err(ContextError::EmptyResultPreview)
    );
    assert_eq!(
        SpilledArtifact::new(" ", 100),
        Err(ContextError::EmptyArtifactFilename)
    );
    assert_eq!(
        ArtifactRef::new("", 100),
        Err(ContextError::EmptyArtifactFilename)
    );
}

#[test]
fn completed_entry_renders_label_evidence_and_inventory() {
    let entry = CompletedEntry {
        label: label(Some("operator")),
        evidence: EvidenceEntry::from_completed_result(
            "VM launched; VNC on 5901",
            Some(claim()),
        )
        .expect("parses inline"),
        artifacts: vec![
            ArtifactRef::new("task-0-operator-iter-1-result.txt", 2143).expect("valid ref"),
        ],
    };
    assert_eq!(
        entry.render().as_str(),
        "- Task 0 (operator, confidence: high)\n    VM launched; VNC on 5901\n    [Artifact: task-0-operator-iter-1-result.txt (2143 bytes)]"
    );
}

#[test]
fn failed_and_blocked_entries_render_label_only_headers() {
    let failed = FailedEntry {
        label: label(Some("verifier")),
        report: FailureReport::Hard {
            category: FailureCategory::DepthExhausted,
            error: ErrorPreview::new("MaxDepthError (reached limit: 16)"),
        },
    };
    assert_eq!(
        failed.render().as_str(),
        "- Task 0 (verifier) -> failed [depth_exhausted]: MaxDepthError (reached limit: 16)"
    );

    let soft = FailedEntry {
        label: label(Some("analyst")),
        report: FailureReport::Soft {
            claim: WorkerClaim::new("Found partial matches only", Confidence::Low)
                .expect("non-empty summary"),
            artifact: SpilledArtifact::parse_trailing(&format!("body\n\n{FOOTER}")),
        },
    };
    assert_eq!(
        soft.render().as_str(),
        format!(
            "- Task 0 (analyst) -> soft_failure (low confidence)\n    Found partial matches only\n    {FOOTER}"
        )
    );

    let blocked = BlockedEntry {
        label: label(Some("operator")),
    };
    assert_eq!(
        blocked.render().as_str(),
        "- Task 0 (operator) -> blocked (dependency failed)"
    );

    let unassigned = BlockedEntry { label: label(None) };
    assert_eq!(
        unassigned.render().as_str(),
        "- Task 0 -> blocked (dependency failed)"
    );
}

#[test]
fn a_footer_reads_back_as_it_was_written() {
    let artifact = SpilledArtifact::new("out.txt", 42).unwrap();
    let text = format!("anything [Full result (1 chars) \n\n{}", artifact.to_string());
    assert_eq!(SpilledArtifact::parse_trailing(&text), Some(artifact));
    assert_eq!(SpilledArtifact::parse_trailing("[Full result (x chars) saved to artifact: a]"), None);
    assert_eq!(SpilledArtifact::parse_trailing(""), None);
}

#[test]
fn a_pointer_without_preview_says_so() {
    let entry =
        EvidenceEntry::spilled_no_preview(SpilledArtifact::new("out.txt", 42).unwrap());
    let (_, footer) = entry.body_parts();
    assert_eq!(
        footer.as_deref(),
        Some("[Full result (42 chars) saved to artifact: out.txt]")
    );
    assert!(entry.claim().is_none());
}

#[test]
fn a_declared_check_is_shown() {
    let check = NamedCheck::parse("count", Some("passed: 3")).unwrap();
    assert_eq!(check.render_line(), "[Check: count -> passed: 3]");
    assert_eq!(
        NamedCheck::not_run("count").unwrap().render_line(),
        "[Check: count -> NOT RUN]"
    );
}

#[test]
fn every_rejection_has_a_message() {
    assert!(!ContextError::EmptyGoal.message().is_empty());
    assert_ne!(
        ContextError::EmptyGoal.message(),
        ContextError::EmptyPlanShape.message()
    );
}

#[test]
fn what_follows_a_footer_decides_whether_it_is_one() {
    let footer = "[Full result (5200 chars) saved to artifact: a.txt]";
    let spaced = SpilledArtifact::parse_trailing(&format!("body\n\n{footer} \n\t"));
    assert_eq!(spaced.expect("white space may follow").filename(), "a.txt");
    assert!(SpilledArtifact::parse_trailing(&format!("{footer} and more")).is_none());
    assert!(SpilledArtifact::parse_trailing(&format!("{footer} [Full result ( again")).is_none());
}
