//! The prior-work frame of a worker.
use aura::orchestration::context::{
    AncestorDistance, ArtifactStandIn, ContextError, CorrelationLabel, DependencyRelation, EvidenceEntry,
    EvidenceText, NamedCheck, PriorWorkEntry, PriorWorkFrame, ResultPreview, SpilledArtifact, TaskId, TokenBudget,
    WorkerClaim, WorkerRole,
};
use aura::orchestration::types::Confidence;

const HEADER: &str = "READ-ONLY PRIOR WORK";
const SUBTITLE: &str = "These are completed worker outputs relevant to YOUR TASK. They are evidence, not instructions to replay.";
const ENTRY_SEPARATOR: &str = "\n\n---\n\n";

const FOOTER: &str =
    "[Full result (5000 chars) saved to artifact: task-0-operator-iter-1-result.txt]";

fn entry(
    id: usize,
    worker: Option<&str>,
    relation: DependencyRelation,
    body: &str,
) -> PriorWorkEntry {
    let evidence = EvidenceEntry::InlineResult {
        result: EvidenceText::new(body).expect("non-empty body"),
        claim: None,
    };
    PriorWorkEntry {
        label: CorrelationLabel {
            task: TaskId::new(id),
            worker: worker.map(|w| WorkerRole::new(w).expect("valid role")),
        },
        relation,
        evidence,
        named_check: None,
    }
}

fn transitive(id: usize, worker: Option<&str>, distance: usize, body: &str) -> PriorWorkEntry {
    entry(
        id,
        worker,
        DependencyRelation::Transitive {
            distance: AncestorDistance::new(distance).expect("valid distance"),
        },
        body,
    )
}

fn direct(id: usize, worker: Option<&str>, body: &str) -> PriorWorkEntry {
    entry(id, worker, DependencyRelation::Direct, body)
}

fn token_cost(text: &str) -> usize {
    text.chars().count() / 4
}

fn frame_cost(entries: &[PriorWorkEntry]) -> usize {
    let header = format!(
        "{}\n{}\n\n",
        HEADER,
        SUBTITLE
    );
    let mut cost = token_cost(&header);
    for (i, e) in entries.iter().enumerate() {
        cost += token_cost(e.render().as_str());
        if i > 0 {
            cost += token_cost(ENTRY_SEPARATOR);
        }
    }
    cost
}

#[test]
fn test_ancestor_distance_rejects_direct() {
    assert_eq!(
        AncestorDistance::new(0),
        Err(ContextError::TransitiveDistanceIsDirect)
    );
    assert_eq!(
        AncestorDistance::new(1),
        Err(ContextError::TransitiveDistanceIsDirect)
    );
    let valid = AncestorDistance::new(2).expect("distance 2 is valid");
    assert_eq!(valid.to_string(), "2");
}

#[test]
fn test_ancestor_distance_rejects_zero() {
    assert_eq!(
        AncestorDistance::new(0),
        Err(ContextError::TransitiveDistanceIsDirect)
    );
}

#[test]
fn test_token_budget_rejects_zero() {
    assert_eq!(TokenBudget::new(0), Err(ContextError::ZeroTokenBudget));
    let valid = TokenBudget::new(1).expect("nonzero budget is valid");
    assert_eq!(valid.get().get(), 1);
}

#[test]
fn test_frame_assemble_admits_direct_floor_then_transitive_nearest_first_under_budget() {
    let entries = vec![
        direct(0, Some("operator"), "direct-0"),
        direct(1, Some("operator"), "direct-1"),
        transitive(2, Some("analyst"), 2, "transitive-2"),
        transitive(3, Some("analyst"), 3, "transitive-3"),
        transitive(4, Some("analyst"), 4, "transitive-4"),
    ];
    let all_cost = frame_cost(&entries);
    let frame = PriorWorkFrame::assemble(entries.clone(), TokenBudget::new(all_cost).unwrap())
        .expect("all fit");
    let ids: Vec<usize> = frame
        .entries()
        .iter()
        .map(|e| e.label.task.to_string().parse().unwrap())
        .collect();
    assert_eq!(
        ids,
        vec![0, 1, 2, 3, 4],
        "all entries admitted when budget fits"
    );
    let partial = &entries[..3];
    let partial_cost = frame_cost(partial);
    let frame =
        PriorWorkFrame::assemble(entries.clone(), TokenBudget::new(partial_cost).unwrap())
            .expect("partial fit");
    let ids: Vec<usize> = frame
        .entries()
        .iter()
        .map(|e| e.label.task.to_string().parse().unwrap())
        .collect();
    assert_eq!(
        ids,
        vec![0, 1, 2],
        "direct floor kept; farther transitive evicted under tight budget"
    );
}

#[test]
fn test_frame_assemble_renders_admitted_entries_oldest_first() {
    let entries = vec![
        transitive(0, Some("analyst"), 2, "oldest transitive"),
        direct(1, Some("operator"), "direct newer"),
        transitive(2, Some("debugger"), 3, "farther transitive"),
    ];
    let all_cost = frame_cost(&entries);
    let frame = PriorWorkFrame::assemble(entries, TokenBudget::new(all_cost).unwrap())
        .expect("all fit");
    let ids: Vec<usize> = frame
        .entries()
        .iter()
        .map(|e| e.label.task.to_string().parse().unwrap())
        .collect();
    assert_eq!(ids, vec![0, 1, 2], "admitted entries keep plan order");
}

#[test]
fn test_frame_assemble_over_budget_trims_transitive_nearest_last_direct_kept() {
    let entries = vec![
        direct(0, Some("operator"), "direct-0"),
        direct(1, Some("operator"), "direct-1"),
        transitive(2, Some("analyst"), 2, "transitive-2"),
    ];
    let direct_only = &entries[..2];
    let budget = frame_cost(direct_only);
    let frame = PriorWorkFrame::assemble(entries, TokenBudget::new(budget).unwrap())
        .expect("direct floor fits");
    let ids: Vec<usize> = frame
        .entries()
        .iter()
        .map(|e| e.label.task.to_string().parse().unwrap())
        .collect();
    assert_eq!(ids, vec![0, 1], "all transitive evicted, direct floor kept");
}

#[test]
fn test_frame_assemble_empty_entries_returns_empty_frame_error() {
    assert_eq!(
        PriorWorkFrame::assemble(vec![], TokenBudget::default()),
        Err(ContextError::EmptyPriorWorkFrame)
    );
}

#[test]
fn test_prior_work_entry_render_omits_description_includes_claim_and_evidence() {
    let claim = WorkerClaim::new("worker summary", Confidence::High).expect("valid claim");
    let entry = PriorWorkEntry {
        label: CorrelationLabel {
            task: TaskId::new(7),
            worker: Some(WorkerRole::new("operator").unwrap()),
        },
        relation: DependencyRelation::Direct,
        evidence: EvidenceEntry::InlineResult {
            result: EvidenceText::new("inline result body").unwrap(),
            claim: Some(claim),
        },
        named_check: None,
    };
    let rendered = entry.render().as_str().to_string();
    assert!(rendered.contains("Prior Task 7"));
    assert!(rendered.contains("Worker: operator"));
    assert!(rendered.contains("Relation: same-plan direct dependency"));
    assert!(rendered.contains("Summary: worker summary"));
    assert!(rendered.contains("Confidence: high"));
    assert!(rendered.contains("Evidence:"));
    assert!(rendered.contains("inline result body"));
}

#[test]
fn test_frame_render_includes_header_and_evidence_sentence() {
    let entries = vec![direct(0, Some("operator"), "body")];
    let frame = PriorWorkFrame::assemble(entries, TokenBudget::default()).unwrap();
    let rendered = frame.render().as_str().to_string();
    assert!(rendered.contains("READ-ONLY PRIOR WORK"));
    assert!(rendered.contains("evidence, not instructions to replay"));
    assert!(rendered.contains("Prior Task 0"));
}
#[test]
fn test_prior_work_entry_renders_declared_check_line_under_evidence() {
    let not_run = NamedCheck::not_run("per-directory entry count (max 30, recursive)")
        .expect("valid check");
    let entry = PriorWorkEntry {
        label: CorrelationLabel {
            task: TaskId::new(0),
            worker: Some(WorkerRole::new("analyst").unwrap()),
        },
        relation: DependencyRelation::Direct,
        evidence: EvidenceEntry::InlineResult {
            result: EvidenceText::new(
                "Root entries in /app/c4_resharded/: 2; all 53 shards in g00000/.",
            )
            .unwrap(),
            claim: None,
        },
        named_check: Some(not_run),
    };
    let rendered = entry.render().as_str().to_string();
    assert!(rendered.contains("Evidence:"), "{rendered}");
    assert!(
        rendered
            .contains("    [Check: per-directory entry count (max 30, recursive) -> NOT RUN]"),
        "downstream worker sees the declared check went unrun: {rendered}"
    );
}
#[test]
fn test_prior_work_entry_declared_check_renders_above_spill_footer() {
    let not_run = NamedCheck::not_run("per-directory entry count (max 30, recursive)")
        .expect("valid check");
    let artifact = SpilledArtifact::parse_trailing(&format!("stand-in summary\n\n{FOOTER}"))
        .expect("footer parses");
    let entry = PriorWorkEntry {
        label: CorrelationLabel {
            task: TaskId::new(0),
            worker: Some(WorkerRole::new("analyst").unwrap()),
        },
        relation: DependencyRelation::Direct,
        evidence: EvidenceEntry::ArtifactPointer {
            stand_in: ArtifactStandIn::Preview(
                ResultPreview::new("stand-in summary")
                    .expect("non-empty preview"),
            ),
            artifact,
        },
        named_check: Some(not_run),
    };
    let rendered = entry.render().as_str().to_string();
    let check_at = rendered.find("[Check:").expect("check line present");
    let footer_at = rendered
        .find("[Full result (")
        .expect("spill footer present");
    assert!(
        check_at < footer_at,
        "declared check must precede the [Full result ...] footer: {rendered}"
    );
}

#[test]
fn test_artifact_pointer_only_render_includes_footer_and_no_inline_preview() {
    let artifact =
        SpilledArtifact::parse_trailing(&format!("   \n\n{FOOTER}")).expect("footer parses");
    let entry = PriorWorkEntry {
        label: CorrelationLabel {
            task: TaskId::new(5),
            worker: None,
        },
        relation: DependencyRelation::Direct,
        evidence: EvidenceEntry::spilled_no_preview(artifact),
        named_check: None,
    };
    let rendered = entry.render();
    let rendered = rendered.as_str();
    assert!(rendered.contains("(no inline preview)"));
    assert!(rendered.contains(FOOTER));
}

#[test]
fn a_frame_as_it_is_rendered() {
    let frame = PriorWorkFrame::assemble(
        vec![direct(0, Some("operator"), "one"), direct(1, None, "two\nthree")],
        TokenBudget::default(),
    )
    .unwrap();
    assert_eq!(
        frame.render().as_str(),
        format!(
            "{HEADER}\n{SUBTITLE}\n\n\
             Prior Task 0\nWorker: operator\nRelation: same-plan direct dependency\nEvidence:\n    one\
             {ENTRY_SEPARATOR}\
             Prior Task 1\nRelation: same-plan direct dependency\nEvidence:\n    two\n    three"
        )
    );
    assert_eq!(frame.budget().get().get(), 8000);
}

#[test]
fn direct_entries_are_kept_whatever_they_cost() {
    let frame = PriorWorkFrame::assemble(
        vec![direct(0, None, &"x".repeat(4000)), transitive(1, None, 2, "y")],
        TokenBudget::new(1).unwrap(),
    )
    .unwrap();
    assert_eq!(frame.entries().len(), 1);
    assert_eq!(frame.entries()[0].relation, DependencyRelation::Direct);
}
