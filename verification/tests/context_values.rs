//! The values that context frames are made of.
use aura::orchestration::bounding::NamedCheckWidth;
use aura::orchestration::context::{
    CheckIdentity, CheckOutcome, CheckResult, ClarificationQuestion, ContextError, CoordinatorTurn,
    ErrorPreview, FailureHandle, FailureRecord, FinalResponse, IterationNumber, NamedCheck,
    PinnedGoal, PlanShape, RoutingRationale, WorkerClaim, WorkerRole,
};
use aura::orchestration::events::RoutingMode;
use aura::orchestration::types::{
    Confidence, FailureCategory, PlanningResponse, StepInput, StructuredTaskOutput, SubmittedCheck,
};

#[test]
fn cut_handle_appends_marker_after_cap() {
    let description = "d".repeat(200);
    let handle = FailureHandle::from_description(&description).expect("non-empty");
    assert_eq!(
        handle.as_str().chars().count(),
        FailureHandle::MAX_CHARS + FailureHandle::TRUNCATION_MARKER.chars().count(),
        "cut handle is the cap plus the marker"
    );
    assert!(handle.as_str().ends_with(FailureHandle::TRUNCATION_MARKER));
    assert!(
        handle
            .as_str()
            .starts_with(&description[..FailureHandle::MAX_CHARS]),
        "the retained text is the first MAX_CHARS characters"
    );
    let reissued = FailureHandle::from_description(&description).expect("non-empty");
    assert_eq!(handle, reissued);
    let exact = "e".repeat(FailureHandle::MAX_CHARS);
    let uncut = FailureHandle::from_description(&exact).expect("non-empty");
    assert_eq!(uncut.as_str(), exact);
}

#[test]
fn handle_is_first_line_of_description() {
    let handle = FailureHandle::from_description(
        "Install QEMU and launch Windows 3.11 with full configuration.\nRun these steps in order: (1) install qemu-system-i386",
    )
    .expect("non-empty");
    assert_eq!(
        handle.as_str(),
        "Install QEMU and launch Windows 3.11 with full configuration."
    );

    assert_eq!(
        FailureHandle::from_description("  \n\t"),
        Err(ContextError::EmptyFailureDescription)
    );
}

#[test]
fn record_renders_handle_worker_category_and_preview() {
    let record = FailureRecord {
        iteration: IterationNumber::new(2).expect("valid iteration"),
        handle: FailureHandle::from_description("Gather logs").expect("non-empty"),
        worker: Some(WorkerRole::new("operations").expect("non-empty")),
        category: FailureCategory::AgentTimeout,
        error: ErrorPreview::new("Timeout contacting service"),
    };
    assert_eq!(
        record.render().as_str(),
        "- Iteration 2: \"Gather logs\" (worker: operations) - [agent_timeout] Timeout contacting service"
    );

    let (handle, category) = record.repeat_key();
    assert_eq!(handle.as_str(), "Gather logs");
    assert_eq!(category, FailureCategory::AgentTimeout);
}

#[test]
fn pinned_goal_is_verbatim() {
    let query = "Run Windows 3.11 for Workgroups in a virtual machine using qemu.\n\nVNC Configuration Requirements:\n- Configure QEMU to use VNC display :1";
    let goal = PinnedGoal::new(query).expect("non-empty query pins");
    assert_eq!(goal.as_str(), query, "stored text is the query verbatim");
}

#[test]
fn empty_or_whitespace_goal_is_rejected() {
    assert_eq!(PinnedGoal::new(""), Err(ContextError::EmptyGoal));
    assert_eq!(PinnedGoal::new("  \n\t"), Err(ContextError::EmptyGoal));
}

#[test]
fn serde_round_trip_revalidates() {
    let goal = PinnedGoal::new("original query").expect("valid goal");
    let json = serde_json::to_string(goal.as_str()).expect("serializes");
    let text: String = serde_json::from_str(&json).expect("deserializes");
    let back = PinnedGoal::try_from(text).expect("revalidates");
    assert_eq!(back, goal);

    let blank: String = serde_json::from_str("\"  \"").expect("deserializes");
    let empty = PinnedGoal::try_from(blank);
    assert!(empty.is_err(), "whitespace goal cannot re-enter via serde");
}

#[test]
fn empty_worker_role_is_rejected() {
    assert_eq!(WorkerRole::new(""), Err(ContextError::EmptyWorkerRole));
    assert_eq!(WorkerRole::new(" \t"), Err(ContextError::EmptyWorkerRole));
    assert_eq!(
        WorkerRole::new("operator").expect("valid role").as_str(),
        "operator"
    );
}

#[test]
fn iteration_numbers_are_one_indexed() {
    assert_eq!(
        IterationNumber::new(0),
        Err(ContextError::ZeroIterationNumber)
    );
    let one = IterationNumber::new(1).expect("iteration 1 is valid");
    assert_eq!(one.to_string(), "1");
}

#[test]
fn worker_claim_requires_summary() {
    assert_eq!(
        WorkerClaim::new("", Confidence::High),
        Err(ContextError::EmptyWorkerClaimSummary)
    );

    let empty_output = StructuredTaskOutput {
        summary: "  ".into(),
        confidence: Confidence::Low,
        named_check: SubmittedCheck::Absent,
    };
    assert_eq!(
        WorkerClaim::try_from(&empty_output),
        Err(ContextError::EmptyWorkerClaimSummary)
    );

    let output = StructuredTaskOutput {
        summary: "Found 47 error groups".into(),
        confidence: Confidence::High,
        named_check: SubmittedCheck::Absent,
    };
    let claim = WorkerClaim::try_from(&output).expect("summary present");
    assert_eq!(claim.summary(), "Found 47 error groups");
    assert_eq!(claim.confidence(), Confidence::High);
}

#[test]
fn empty_identity_and_result_are_rejected() {
    assert_eq!(CheckIdentity::new("  "), Err(ContextError::EmptyCheckIdentity));
    assert_eq!(CheckResult::new(""), Err(ContextError::EmptyCheckResult));
}

#[test]
fn over_bound_fields_are_rejected() {
    let long = "x".repeat(10_000);
    assert!(!NamedCheckWidth::default_width().fits(&long));
    assert_eq!(
        CheckIdentity::new(&long),
        Err(ContextError::CheckIdentityTooLong)
    );
    assert_eq!(CheckResult::new(&long), Err(ContextError::CheckResultTooLong));
}

#[test]
fn parse_maps_absent_result_to_not_run() {
    let performed = NamedCheck::parse("per-directory entry count (max 30)", Some("VIOLATION: g00000 has 53"))
        .expect("valid check");
    assert!(matches!(performed.outcome(), CheckOutcome::Performed(_)));

    let absent = NamedCheck::parse("per-directory entry count (max 30)", None).expect("valid check");
    assert_eq!(absent.outcome(), &CheckOutcome::NotRun);
}

fn role(name: &str) -> Option<WorkerRole> {
    Some(WorkerRole::new(name).expect("valid role"))
}

#[test]
fn empty_turn_payloads_are_rejected() {
    assert_eq!(
        RoutingRationale::new(" \t"),
        Err(ContextError::EmptyRoutingRationale)
    );
    assert_eq!(
        FinalResponse::new(""),
        Err(ContextError::EmptyFinalResponse)
    );
    assert_eq!(
        ClarificationQuestion::new("\n"),
        Err(ContextError::EmptyClarificationQuestion)
    );
    assert_eq!(
        PlanShape::new(Vec::new()),
        Err(ContextError::EmptyPlanShape)
    );
}

#[test]
fn plan_shape_renders_count_and_assignments() {
    let one = PlanShape::new(vec![role("operator")]).expect("non-empty");
    assert_eq!(one.to_string(), "1 task (operator)");

    let three =
        PlanShape::new(vec![role("analyst"), None, role("verifier")]).expect("non-empty");
    assert_eq!(three.to_string(), "3 tasks (analyst, unassigned, verifier)");
    assert_eq!(three.assignments().len(), 3);
}
#[test]
fn create_plan_turn_renders_the_architecture_example() {
    let turn = CoordinatorTurn::CreatePlan {
        rationale: RoutingRationale::new(
            "launch the VM and expose it over VNC before verifying input.",
        )
        .expect("non-empty"),
        shape: PlanShape::new(vec![role("operator")]).expect("non-empty"),
    };
    assert_eq!(
        turn.render().as_str(),
        "create_plan: 1 task (operator). Rationale: launch the VM and expose it over VNC before verifying input."
    );
}
#[test]
fn terminal_turns_record_the_model_text_verbatim() {
    let respond = CoordinatorTurn::RespondDirectly {
        response: FinalResponse::new("Kafka lag is back under 100 messages.")
            .expect("non-empty"),
    };
    assert_eq!(
        respond.render().as_str(),
        "Kafka lag is back under 100 messages."
    );

    let clarify = CoordinatorTurn::RequestClarification {
        question: ClarificationQuestion::new("Which environment should I audit?")
            .expect("non-empty"),
    };
    assert_eq!(
        clarify.render().as_str(),
        "Which environment should I audit?"
    );
}

#[test]
fn decision_conversion_keeps_shape_and_drops_task_bodies() {
    let decision = PlanningResponse::StepsPlan {
        goal: "Audit ingest pipeline health".to_owned(),
        steps: vec![
            StepInput::LeafTask {
                task: "Enumerate pods in namespace ingest".to_owned(),
                worker: Some("operator".to_owned()),
            },
            StepInput::ParallelGroup {
                items: vec![
                    StepInput::LeafTask {
                        task: "Sample consumer lag metrics".to_owned(),
                        worker: None,
                    },
                    StepInput::SubChain {
                        steps: vec![StepInput::LeafTask {
                            task: "Cross-check broker logs".to_owned(),
                            worker: Some("verifier".to_owned()),
                        }],
                    },
                ],
            },
        ],
        routing_rationale: "Pipeline health needs live cluster access.".to_owned(),
        planning_summary: "Enumerate, sample, cross-check.".to_owned(),
    };

    let turn = CoordinatorTurn::try_from(&decision).expect("recordable decision");
    let rendered = turn.render();
    assert_eq!(
        rendered.as_str(),
        "create_plan: 3 tasks (operator, unassigned, verifier). \
         Rationale: Pipeline health needs live cluster access."
    );
    for task_body in [
        "Enumerate pods in namespace ingest",
        "Sample consumer lag metrics",
        "Cross-check broker logs",
    ] {
        assert!(
            !rendered.as_str().contains(task_body),
            "recorded turn must not replay the task body {task_body:?}"
        );
    }
}

#[test]
fn conversion_rejects_unrecordable_decisions() {
    let no_rationale = PlanningResponse::StepsPlan {
        goal: "g".to_owned(),
        steps: vec![StepInput::LeafTask {
            task: "t".to_owned(),
            worker: None,
        }],
        routing_rationale: "  ".to_owned(),
        planning_summary: String::new(),
    };
    assert_eq!(
        CoordinatorTurn::try_from(&no_rationale),
        Err(ContextError::EmptyRoutingRationale)
    );

    let no_tasks = PlanningResponse::StepsPlan {
        goal: "g".to_owned(),
        steps: Vec::new(),
        routing_rationale: "r".to_owned(),
        planning_summary: String::new(),
    };
    assert_eq!(
        CoordinatorTurn::try_from(&no_tasks),
        Err(ContextError::EmptyPlanShape)
    );

    let no_response = PlanningResponse::Direct {
        response: String::new(),
        routing_rationale: "r".to_owned(),
        response_summary: None,
    };
    assert_eq!(
        CoordinatorTurn::try_from(&no_response),
        Err(ContextError::EmptyFinalResponse)
    );

    let no_question = PlanningResponse::Clarification {
        question: " ".to_owned(),
        options: None,
        routing_rationale: "r".to_owned(),
    };
    assert_eq!(
        CoordinatorTurn::try_from(&no_question),
        Err(ContextError::EmptyClarificationQuestion)
    );
}

#[test]
fn later_lines_do_not_change_a_handle() {
    let one = FailureHandle::from_description("Gather logs\nfrom a").unwrap();
    let two = FailureHandle::from_description("Gather logs\nfrom b").unwrap();
    assert_eq!(one, two);
    let again = FailureHandle::from_description(one.as_str()).unwrap();
    assert_eq!(again, one);
}

#[test]
fn a_claim_can_carry_a_check() {
    let claim = WorkerClaim::new("done", Confidence::Medium).unwrap();
    assert!(claim.named_check().is_none());
    let claim = claim.with_named_check(NamedCheck::not_run("count").unwrap());
    assert_eq!(claim.named_check().unwrap().identity().as_str(), "count");
    assert_eq!(Confidence::Medium.as_str(), "medium");
}

#[test]
fn plans_of_one_task_are_routed() {
    assert_eq!(RoutingMode::for_plan(1), RoutingMode::Routed);
    assert_eq!(RoutingMode::for_plan(2), RoutingMode::Orchestrated);
}
