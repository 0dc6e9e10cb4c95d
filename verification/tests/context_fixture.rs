//! Requests as they are made and compared.
use aura::json::{Json, Member};
use aura::mcp::conversion::ToolDefinition;
use aura::orchestration::config::{OrchestrationConfig, ToolVisibility, VectorStoreConfig};
use aura::orchestration::context::{
    ContextError, EvidenceText, PinnedGoal, ResultPreview, SpilledArtifact, WorkerClaim,
};
use aura::orchestration::context_fixture::envelope::{
    compose_coordinator_preamble, executed_plan, merged_traces, Message, RequestEnvelope,
};
use aura::orchestration::context_fixture::frame_graph::FrameGraph;
use aura::orchestration::context_fixture::normalize::{
    canonicalize_worker_order, has_full_timestamp_prefix, normalize, normalize_with,
    scrub_wrapper_timestamp, NormalizationDefect, NormalizedSnapshot,
};
use aura::orchestration::context_fixture::requests::{
    coordinator_envelope, coordinator_tool_order, grow_conversation, worker_envelope,
    worker_tool_order, RoundTexts,
};
use aura::orchestration::context_fixture::scenario::{
    CompletedResultFixture, ContinuationThread, CoordinatorCall, CoordinatorScenario,
    CoordinatorToolConfig, FailedResultFixture, FailureSummary, FixtureError, HistoryTools,
    IterationFixture, PlanDecision, PlanningBudget, PreambleFixture, ReconTools, RunManifest,
    SessionHistoryFixture, SpilledStandIn, TaskOutcome, ToolOutcome, ToolTraceEntry,
    WorkerRosterFixture,
};
use aura::orchestration::context_fixture::worker::{
    compose_worker_preamble, ScratchpadWiring, WorkerFrameFixture, WorkerPreambleAppends,
    WorkerPreambleFixture, WorkerScenario, SCRATCHPAD_PREAMBLE,
};
use aura::orchestration::plan::{into_plan, Plan, Task, TaskState};
use aura::orchestration::types::{Confidence, FailureCategory, PlanningResponse, StepInput};

const QUERY: &str = "Investigate the elevated error rates in the payments service \
and report the top failure groups with supporting evidence.";

fn envelope(messages: Vec<Message>) -> RequestEnvelope {
    RequestEnvelope {
        system: "SYSTEM TEXT".to_owned(),
        messages,
        tools: vec![ToolDefinition {
            name: "t".to_owned(),
            description: "d".to_owned(),
            parameters: Json::Object(vec![Member {
                key: "type".to_owned(),
                value: Json::Text("object".to_owned()),
            }]),
        }],
    }
}

fn user(text: &str) -> Message {
    Message::User(text.to_owned())
}

fn assistant(text: &str) -> Message {
    Message::Assistant(text.to_owned())
}

fn normalized(envelope: &RequestEnvelope) -> NormalizedSnapshot {
    match normalize(envelope) {
        Ok(snapshot) => snapshot,
        Err(defect) => panic!("{}", defect.message()),
    }
}

// ---------------------------------------------------------------------------
// Normalization
// ---------------------------------------------------------------------------

#[test]
fn timestamp_prefix_is_scrubbed_only_at_offset_zero() {
    let body = "Current time: 2026-07-08T00:33:54Z\n\npayload says Current time: 2026-07-08T00:33:54Z too";
    let normalized = normalized(&envelope(vec![user(body)]));
    let text = normalized.as_str();
    assert!(text.contains("Current time: <TIMESTAMP>\n\npayload"));
    assert!(
        text.contains("payload says Current time: 2026-07-08T00:33:54Z too"),
        "payload occurrence must survive: {text}"
    );
}

#[test]
#[should_panic(expected = "malformed")]
fn malformed_timestamp_prefix_panics_instead_of_skipping() {
    let body = "Current time: not-a-timestamp\n\nrest";
    normalized(&envelope(vec![user(body)]));
}

#[test]
#[should_panic(expected = "all-or-none")]
fn mixed_timestamp_prefixes_panic() {
    normalized(&envelope(vec![
        user("Current time: 2026-07-08T00:33:54Z\n\nfirst"),
        assistant("decision"),
        user("no prefix here"),
    ]));
}

#[test]
#[should_panic(expected = "payload collision")]
fn roster_marker_outside_first_user_message_panics() {
    normalized(&envelope(vec![
        user("first"),
        assistant("AVAILABLE WORKERS: echoed into a turn"),
    ]));
}

#[test]
fn worker_envelope_without_markers_passes_untouched() {
    let normalized = normalized(&envelope(vec![user("YOUR TASK: do the thing")]));
    assert!(normalized.as_str().contains("YOUR TASK: do the thing"));
}

#[test]
fn the_clock_makes_no_difference() {
    let at = |time: &str| envelope(vec![user(&format!("Current time: {time}\n\nrest"))]);
    assert_eq!(
        normalized(&at("2026-07-08T00:33:54Z")).as_str(),
        normalized(&at("1999-12-31T23:59:59Z")).as_str()
    );
    assert!(has_full_timestamp_prefix("Current time: 2026-07-08T00:33:54Z\n\n"));
    assert!(!has_full_timestamp_prefix("Current time: 2026-07-08"));
    assert_eq!(scrub_wrapper_timestamp("no time"), "no time");
}

#[test]
fn tools_are_written_as_json() {
    let envelope = envelope(vec![user("x")]);
    let Json::Array(tools) = envelope.tools_json() else {
        panic!("the tools are an array");
    };
    assert_eq!(tools.len(), 1);
    assert_eq!(tools[0].get("name"), Some(&Json::Text("t".to_owned())));
    assert_eq!(tools[0].get("description"), Some(&Json::Text("d".to_owned())));
    assert_eq!(tools[0].get("parameters"), Some(&envelope.tools[0].parameters));
    let shown = match normalize_with(&envelope, "TOOLS AS SHOWN") {
        Ok(snapshot) => snapshot.as_str().to_owned(),
        Err(defect) => panic!("{}", defect.message()),
    };
    assert!(shown.ends_with("TOOLS AS SHOWN\n"), "{shown}");
    assert!(normalized(&envelope)
        .as_str()
        .ends_with("[\n  {\n    \"description\": \"d\",\n    \"name\": \"t\",\n    \"parameters\": {\n      \"type\": \"object\"\n    }\n  }\n]\n"));
}

#[test]
fn the_order_of_the_roster_makes_no_difference() {
    let planning = |workers: [&str; 2], names: [&str; 2]| {
        format!(
            "Plan.\nAVAILABLE WORKERS:\n{}\n{}\n\nEach worker has specialized capabilities. \
             Assign tasks to the most appropriate worker.\nValid worker names: {}, {}\nrest",
            workers[0], workers[1], names[0], names[1]
        )
    };
    let a = planning(["- analyst: logs", "- operator: deploys"], ["analyst", "operator"]);
    let b = planning(["- operator: deploys", "- analyst: logs"], ["operator", "analyst"]);
    assert_eq!(canonicalize_worker_order(&a).ok(), Some(a.clone()));
    assert_eq!(canonicalize_worker_order(&b).ok(), Some(a));
}

#[test]
fn each_misplaced_marker_is_told() {
    let in_system = RequestEnvelope {
        system: "AVAILABLE WORKERS:".to_owned(),
        messages: vec![user("x")],
        tools: vec![],
    };
    assert!(matches!(
        normalize(&in_system),
        Err(NormalizationDefect::InSystem { .. })
    ));
    let mut in_tools = envelope(vec![user("x")]);
    in_tools.tools[0].description = "lists AVAILABLE WORKERS:".to_owned();
    assert!(matches!(
        normalize(&in_tools),
        Err(NormalizationDefect::InTools { .. })
    ));
    assert!(matches!(
        normalize(&envelope(vec![user("x"), user("AVAILABLE WORKERS:")])),
        Err(NormalizationDefect::InLaterUser { index: 1, .. })
    ));
    assert!(matches!(
        normalize(&envelope(vec![user("AVAILABLE WORKERS: AVAILABLE WORKERS:")])),
        Err(NormalizationDefect::Repeated { occurrences: 2, .. })
    ));
    assert!(matches!(
        canonicalize_worker_order("AVAILABLE WORKERS:"),
        Err(NormalizationDefect::NoLineAfterHeading)
    ));
    assert_eq!(canonicalize_worker_order("plain").ok().as_deref(), Some("plain"));
}

// ---------------------------------------------------------------------------
// Fixtures
// ---------------------------------------------------------------------------

fn roster_config(workers: &[&str], tools_in_planning: ToolVisibility) -> OrchestrationConfig {
    OrchestrationConfig {
        enabled: true,
        workers: workers.iter().map(|w| (*w).to_owned()).collect(),
        tools_in_planning,
        ..Default::default()
    }
}

fn analyst_operator() -> OrchestrationConfig {
    roster_config(&["analyst", "operator"], ToolVisibility::Summary)
}

fn preamble(tools: CoordinatorToolConfig) -> PreambleFixture {
    PreambleFixture {
        playbook: "Playbook.".to_owned(),
        tools,
        skill_catalog: None,
        vector_stores: Vec::new(),
        session_history: None,
    }
}

fn no_optional_tools() -> CoordinatorToolConfig {
    CoordinatorToolConfig {
        recon: ReconTools::Excluded,
        history: HistoryTools::Excluded,
    }
}

fn goal() -> PinnedGoal {
    PinnedGoal::new(QUERY).expect("fixture query is non-empty")
}

fn claim(summary: &str, confidence: Confidence) -> WorkerClaim {
    WorkerClaim::new(summary, confidence).expect("fixture claim summary is non-empty")
}

fn evidence(text: &str) -> EvidenceText {
    EvidenceText::new(text).expect("fixture evidence is inline-parseable")
}

fn leaf(task: &str, worker: Option<&str>) -> StepInput {
    StepInput::LeafTask {
        task: task.to_owned(),
        worker: worker.map(str::to_owned),
    }
}

fn decision(rationale: &str, steps: Vec<StepInput>) -> PlanDecision {
    PlanDecision::new(PlanningResponse::StepsPlan {
        goal: QUERY.to_owned(),
        steps,
        routing_rationale: rationale.to_owned(),
        planning_summary: "Gather evidence, then correlate and summarize.".to_owned(),
    })
    .expect("fixture decisions are steps plans that flatten")
}

fn success_trace(tool: &str, reasoning: &str, ms: u64, artifact: Option<&str>) -> ToolTraceEntry {
    ToolTraceEntry {
        tool: tool.to_owned(),
        reasoning: reasoning.to_owned(),
        duration_ms: ms,
        outcome: ToolOutcome::Success { output_bytes: 512 },
        artifact_filename: artifact.map(str::to_owned),
    }
}

fn failed_trace(tool: &str, reasoning: &str, ms: u64, message: &str) -> ToolTraceEntry {
    ToolTraceEntry {
        tool: tool.to_owned(),
        reasoning: reasoning.to_owned(),
        duration_ms: ms,
        outcome: ToolOutcome::Error {
            message: message.to_owned(),
        },
        artifact_filename: None,
    }
}

fn spilled(filename: &str, full_chars: usize) -> SpilledArtifact {
    SpilledArtifact::new(filename, full_chars).expect("fixture artifact is valid")
}

fn routed_manifest() -> RunManifest {
    RunManifest {
        run_id: "run-routed-0001".to_owned(),
        session_id: Some("s2-session".to_owned()),
        timestamp: "2026-07-08T09:15:00Z".to_owned(),
        goal: "Triage the payments error spike".to_owned(),
        iterations: 1,
        outcome: Some("1/2 tasks completed".to_owned()),
        response_summary: None,
    }
}

fn direct_manifest() -> RunManifest {
    RunManifest {
        run_id: "run-direct-0002".to_owned(),
        session_id: Some("s2-session".to_owned()),
        timestamp: "2026-07-09T18:30:00Z".to_owned(),
        goal: "What did the last triage conclude?".to_owned(),
        iterations: 0,
        outcome: Some("Answered directly".to_owned()),
        response_summary: Some("Summarized the prior triage results.".to_owned()),
    }
}

fn catch_all_manifest() -> RunManifest {
    RunManifest {
        run_id: "run-catch-all-0001".to_owned(),
        session_id: Some("s2-session".to_owned()),
        timestamp: "2026-07-10T09:15:00Z".to_owned(),
        goal: "Triage the payments error spike".to_owned(),
        iterations: 1,
        outcome: Some("0/2 tasks completed".to_owned()),
        response_summary: None,
    }
}

fn clean_iteration() -> IterationFixture {
    let decision = decision(
        "Two evidence-gathering lookups are required before answering.",
        vec![
            leaf(
                "Collect the error groups from the payments logs for the last six hours",
                Some("analyst"),
            ),
            leaf(
                "Assemble the deployment timeline for the same window",
                Some("operator"),
            ),
        ],
    );
    let outcomes = vec![
        TaskOutcome::Complete {
            result: CompletedResultFixture::Inline {
                result: evidence(
                    "Found 47 error groups across 3 services; top: connection timeouts (38%).",
                ),
                claim: Some(claim(
                    "Found 47 error groups; connection timeouts dominate",
                    Confidence::High,
                )),
            },
            traces: vec![
                success_trace(
                    "log_search",
                    "searching payments error patterns",
                    8200,
                    Some("task-0-analyst-iter-1-log_search-0-output.txt"),
                ),
                success_trace("get_metrics", "", 3100, None),
            ],
        },
        TaskOutcome::Complete {
            result: CompletedResultFixture::Inline {
                result: evidence(
                    "Deployment timeline assembled: 3 deploys landed inside the error window.",
                ),
                claim: None,
            },
            traces: vec![],
        },
    ];
    IterationFixture::new(decision, outcomes, None).expect("clean iteration validates")
}

/// Two rounds: the second uses the first one's task ids again and fails again
/// where the first one failed.
fn failure_thread_iterations() -> Vec<IterationFixture> {
    let iteration_one = IterationFixture::new(
        decision(
            "Evidence gathering requires log access.",
            vec![
                leaf(
                    "Collect the error groups from the payments logs for the last six hours",
                    Some("analyst"),
                ),
                leaf("Query deployment history for the error window", None),
            ],
        ),
        vec![
            TaskOutcome::Complete {
                result: CompletedResultFixture::Spilled {
                    stand_in: SpilledStandIn::ClaimEcho {
                        claim: claim(
                            "Found 47 error groups; connection timeouts dominate",
                            Confidence::High,
                        ),
                    },
                    artifact: spilled("task-0-analyst-iter-1-result.txt", 5200),
                },
                traces: vec![success_trace(
                    "log_search",
                    "searching payments error patterns",
                    8200,
                    Some("task-0-analyst-iter-1-log_search-0-output.txt"),
                )],
            },
            TaskOutcome::Failed {
                report: FailedResultFixture::Hard {
                    error: "403 Forbidden from the deployment API".to_owned(),
                    category: FailureCategory::AgentError,
                },
                traces: vec![],
            },
        ],
        Some(FailureSummary {
            reasoning: "Execution failed: 1 task(s) failed, 0 task(s) blocked by dependencies."
                .to_owned(),
            gaps: vec!["Deployment history unavailable due to permissions".to_owned()],
        }),
    )
    .expect("iteration 1 validates");

    let iteration_two = IterationFixture::new(
        decision(
            "Retry the deployment lookup and correlate the evidence.",
            vec![
                leaf(
                    "Re-run the error-group collection over the widened twelve-hour window",
                    Some("analyst"),
                ),
                leaf(
                    "Query deployment history for the error window",
                    Some("analyst"),
                ),
                leaf(
                    "Correlate the deployment timeline with the error groups",
                    Some("operator"),
                ),
                leaf(
                    "Draft the incident summary from the correlated evidence",
                    Some("operator"),
                ),
            ],
        ),
        vec![
            TaskOutcome::Complete {
                result: CompletedResultFixture::Spilled {
                    stand_in: SpilledStandIn::RawPreview {
                        preview: ResultPreview::new(
                            "Widened window confirms 52 error groups; timeouts still dominate.",
                        )
                        .expect("non-empty preview"),
                        claim: None,
                    },
                    artifact: spilled("task-0-analyst-iter-2-result.txt", 6100),
                },
                traces: vec![success_trace(
                    "log_search",
                    "re-running with the widened window",
                    9400,
                    Some("task-0-analyst-iter-2-log_search-0-output.txt"),
                )],
            },
            TaskOutcome::Failed {
                report: FailedResultFixture::Hard {
                    error: "403 Forbidden from the deployment API".to_owned(),
                    category: FailureCategory::AgentError,
                },
                traces: vec![
                    success_trace("get_deployments", "checking staging first", 1200, None),
                    success_trace("get_deployments", "", 900, None),
                    failed_trace(
                        "get_deployments",
                        "querying prod-us-east-1",
                        30200,
                        "403 Forbidden",
                    ),
                ],
            },
            TaskOutcome::Failed {
                report: FailedResultFixture::Soft {
                    claim: claim(
                        "Only partial correlation evidence was recoverable",
                        Confidence::Low,
                    ),
                    artifact: Some(spilled("task-2-operator-iter-2-result.txt", 5200)),
                },
                traces: vec![],
            },
            TaskOutcome::Blocked,
        ],
        Some(FailureSummary {
            reasoning: "Execution failed: 2 task(s) failed, 1 task(s) blocked by dependencies."
                .to_owned(),
            gaps: vec![
                "Deployment history remains unavailable".to_owned(),
                "Incident summary blocked on the correlation task".to_owned(),
            ],
        }),
    )
    .expect("iteration 2 validates");

    vec![iteration_one, iteration_two]
}

#[test]
fn fixture_constructors_reject_unreachable_states() {
    assert!(matches!(
        PlanningBudget::new(0),
        Err(FixtureError::ZeroPlanningBudget)
    ));
    assert!(matches!(
        SessionHistoryFixture::new(vec![]),
        Err(FixtureError::EmptySessionHistory)
    ));
    assert!(matches!(
        SessionHistoryFixture::new(vec![routed_manifest(), direct_manifest()]),
        Err(FixtureError::SessionHistoryNotRecentFirst)
    ));
    assert!(matches!(
        ContinuationThread::new(vec![]),
        Err(FixtureError::EmptyContinuationThread)
    ));
    assert!(matches!(
        PlanDecision::new(PlanningResponse::Direct {
            response: "done".to_owned(),
            routing_rationale: "r".to_owned(),
            response_summary: None,
        }),
        Err(FixtureError::TerminalDecisionMidThread)
    ));
    assert!(matches!(
        IterationFixture::new(
            decision("one task", vec![leaf("a task", Some("analyst"))]),
            vec![],
            None
        ),
        Err(FixtureError::OutcomeCountMismatch {
            tasks: 1,
            outcomes: 0
        })
    ));
    assert!(matches!(
        IterationFixture::new(
            decision("one task", vec![leaf("a task", Some("analyst"))]),
            vec![TaskOutcome::Complete {
                result: CompletedResultFixture::Inline {
                    result: evidence("done"),
                    claim: None,
                },
                traces: vec![],
            }],
            Some(FailureSummary {
                reasoning: String::new(),
                gaps: vec![],
            })
        ),
        Err(FixtureError::FailureSummaryWithoutFailure)
    ));
    assert!(matches!(
        CoordinatorScenario::new(
            preamble(CoordinatorToolConfig {
                recon: ReconTools::Included,
                history: HistoryTools::Excluded,
            }),
            goal(),
            WorkerRosterFixture::new(analyst_operator(), Vec::new()),
            CoordinatorCall::Initial,
        ),
        Err(FixtureError::ReconRequiresUninlinedTools)
    ));
    assert!(matches!(
        CoordinatorScenario::new(
            preamble(no_optional_tools()),
            goal(),
            WorkerRosterFixture::new(
                roster_config(&[], ToolVisibility::Summary),
                Vec::new(),
            ),
            CoordinatorCall::Continuation(
                ContinuationThread::new(vec![clean_iteration()]).expect("one iteration"),
            ),
        ),
        Err(FixtureError::CompletedTaskUnknownWorker { task_id: 0, .. })
    ));
    let one_cycle = OrchestrationConfig {
        max_planning_cycles: 1,
        ..analyst_operator()
    };
    assert!(matches!(
        CoordinatorScenario::new(
            preamble(no_optional_tools()),
            goal(),
            WorkerRosterFixture::new(one_cycle, Vec::new()),
            CoordinatorCall::Continuation(
                ContinuationThread::new(failure_thread_iterations()).expect("two iterations"),
            ),
        ),
        Err(FixtureError::IterationsExhaustBudget {
            iterations: 2,
            budget: 1
        })
    ));
    let mut plan = Plan::new(QUERY);
    plan.add_task(Task::new(0, "unstarted predecessor", "fixture"));
    plan.add_task(Task::new(1, "target", "fixture").with_dependency(0));
    assert!(matches!(
        FrameGraph::new(plan, 1),
        Err(FixtureError::FrameHasNoCompletedAncestor { task_id: 1 })
    ));
    assert!(matches!(
        EvidenceText::new(
            "body\n\n[Full result (5200 chars) saved to artifact: task-0-analyst-iter-1-result.txt]"
        ),
        Err(ContextError::InlineEvidenceCarriesSpillFooter)
    ));
}

#[test]
fn rejected_fixtures_say_why() {
    assert!(!FixtureError::ZeroPlanningBudget.to_string().is_empty());
    let mismatch = FixtureError::OutcomeCountMismatch {
        tasks: 1,
        outcomes: 3,
    }
    .to_string();
    assert!(mismatch.contains('1') && mismatch.contains('3'), "{mismatch}");
    assert!(matches!(
        PlanDecision::new(PlanningResponse::StepsPlan {
            goal: "g".to_owned(),
            steps: vec![],
            routing_rationale: "r".to_owned(),
            planning_summary: String::new(),
        }),
        Err(FixtureError::UnflattenablePlan)
    ));
}

#[test]
fn steps_become_tasks() {
    let steps = vec![
        leaf("a", Some("x")),
        StepInput::ParallelGroup {
            items: vec![
                leaf("b", None),
                StepInput::SubChain {
                    steps: vec![leaf("c", None), leaf("d", None)],
                },
            ],
        },
        leaf("e", None),
    ];
    let plan = into_plan("goal", &steps).expect("the steps flatten");
    let shape: Vec<(usize, &str, Vec<usize>)> = plan
        .tasks
        .iter()
        .map(|t| (t.id, t.description.as_str(), t.dependencies.clone()))
        .collect();
    assert_eq!(
        shape,
        vec![
            (0, "a", vec![]),
            (1, "b", vec![0]),
            (2, "c", vec![0]),
            (3, "d", vec![2]),
            (4, "e", vec![1, 3]),
        ]
    );
    assert!(into_plan("goal", &vec![]).is_none());
}

#[test]
fn a_round_leaves_its_tasks_as_they_ended() {
    let iterations = failure_thread_iterations();
    let first = executed_plan(&iterations[0]);
    assert_eq!(
        first.tasks[0].state,
        TaskState::Complete {
            result: "Found 47 error groups; connection timeouts dominate\n\n[Full result (5200 chars) saved to artifact: task-0-analyst-iter-1-result.txt]"
                .to_owned(),
        }
    );
    assert_eq!(
        first.tasks[0].structured_output.as_ref().map(|o| o.summary.as_str()),
        Some("Found 47 error groups; connection timeouts dominate")
    );

    assert_eq!(first.goal, QUERY);

    let second = executed_plan(&iterations[1]);
    assert_eq!(
        second.tasks[0].state,
        TaskState::Complete {
            result: "Widened window confirms 52 error groups; timeouts still dominate.\n\n[Full result (6100 chars) saved to artifact: task-0-analyst-iter-2-result.txt]"
                .to_owned(),
        }
    );
    assert!(second.tasks[0].structured_output.is_none());
    assert_eq!(
        second.tasks[1].state,
        TaskState::Failed {
            error: "403 Forbidden from the deployment API".to_owned(),
            category: FailureCategory::AgentError,
        }
    );
    assert!(second.tasks[1].structured_output.is_none());
    assert_eq!(
        second.tasks[2].state,
        TaskState::Failed {
            error: "Only partial correlation evidence was recoverable\n\n[Full result (5200 chars) saved to artifact: task-2-operator-iter-2-result.txt]"
                .to_owned(),
            category: FailureCategory::SoftFailure,
        }
    );
    assert_eq!(
        second.tasks[2].structured_output.as_ref().map(|o| o.summary.as_str()),
        Some("Only partial correlation evidence was recoverable")
    );
    assert_eq!(second.tasks[3].state, TaskState::Pending);

    let clean = executed_plan(&clean_iteration());
    assert_eq!(
        clean.tasks[0].structured_output.as_ref().map(|o| o.summary.as_str()),
        Some("Found 47 error groups; connection timeouts dominate")
    );
    let nothing_shown = CompletedResultFixture::Spilled {
        stand_in: SpilledStandIn::NoPreview,
        artifact: spilled("task-0-analyst-iter-1-result.txt", 5200),
    };
    assert_eq!(
        nothing_shown.raw_result(),
        "\n\n[Full result (5200 chars) saved to artifact: task-0-analyst-iter-1-result.txt]"
    );
}

/// Every kind of failure is kept with its task.
#[test]
fn every_failure_category_is_kept() {
    let categories = [
        (FailureCategory::AgentTimeout, "agent timeout"),
        (FailureCategory::ContextOverflow, "context overflow"),
        (FailureCategory::DepthExhausted, "depth exhausted"),
        (FailureCategory::LoopDetected, "loop detected"),
        (FailureCategory::ProviderOverloaded, "provider overloaded"),
        (FailureCategory::ProviderAuthError, "provider auth error"),
        (FailureCategory::ProviderNotFound, "provider not found"),
        (FailureCategory::DependencyFailed, "dependency failed"),
        (FailureCategory::SoftFailure, "soft failure"),
        (FailureCategory::AgentError, "agent error"),
    ];
    let steps = categories
        .iter()
        .enumerate()
        .map(|(i, (_, msg))| leaf(&format!("Task {i}: {msg}"), Some("analyst")))
        .collect();
    let outcomes = categories
        .iter()
        .map(|(category, msg)| TaskOutcome::Failed {
            report: FailedResultFixture::Hard {
                error: format!("error: {msg}"),
                category: *category,
            },
            traces: vec![],
        })
        .collect();
    let iteration = IterationFixture::new(
        decision("Exercise every failure category in one iteration.", steps),
        outcomes,
        Some(FailureSummary {
            reasoning: "Execution failed: all tasks failed.".to_owned(),
            gaps: vec!["All failure categories exercised".to_owned()],
        }),
    )
    .expect("all-failure iteration validates");
    let plan = executed_plan(&iteration);
    assert_eq!(plan.tasks.len(), categories.len());
    for (task, (category, msg)) in plan.tasks.iter().zip(categories) {
        assert_eq!(
            task.state,
            TaskState::Failed {
                error: format!("error: {msg}"),
                category,
            }
        );
    }
}

#[test]
fn gate_r5_trace_merge_matches_persistence_loader() {
    let iterations = failure_thread_iterations();
    let plan = executed_plan(&iterations[1]);
    let merged = merged_traces(&iterations, &plan);
    let calls: Vec<(usize, Vec<(&str, u64)>)> = merged
        .iter()
        .map(|record| {
            let entries = record.entries.iter();
            (
                record.task_id,
                entries.map(|e| (e.reasoning.as_str(), e.duration_ms)).collect(),
            )
        })
        .collect();
    assert_eq!(
        calls,
        vec![
            (
                0,
                vec![
                    ("searching payments error patterns", 8200),
                    ("re-running with the widened window", 9400),
                ]
            ),
            (
                1,
                vec![
                    ("checking staging first", 1200),
                    ("", 900),
                    ("querying prod-us-east-1", 30200),
                ]
            ),
        ],
        "tasks without calls have no record"
    );
    assert_eq!(
        *merged[1].entries[2],
        failed_trace("get_deployments", "querying prod-us-east-1", 30200, "403 Forbidden")
    );
}

#[test]
fn gate_r8_coordinator_tool_order() {
    let mut fixture = preamble(CoordinatorToolConfig {
        recon: ReconTools::Included,
        history: HistoryTools::Included,
    });
    fixture.skill_catalog = Some("skills".to_owned());
    assert_eq!(
        coordinator_tool_order(&fixture),
        vec![
            "list_tools",
            "inspect_tool_params",
            "respond_directly",
            "create_plan",
            "request_clarification",
            "read_artifact",
            "list_prior_runs",
            "load_skill",
            "read_skill_file",
        ]
    );
    assert_eq!(
        coordinator_tool_order(&preamble(no_optional_tools())),
        vec![
            "respond_directly",
            "create_plan",
            "request_clarification",
            "read_artifact",
        ]
    );
}

fn generic(scratchpad: ScratchpadWiring, skill_catalog: Option<&str>) -> WorkerPreambleFixture {
    WorkerPreambleFixture::Generic {
        custom_prompt: None,
        appends: WorkerPreambleAppends {
            scratchpad,
            skill_catalog: skill_catalog.map(str::to_owned),
        },
    }
}

#[test]
fn gate_r8_worker_tool_order() {
    assert_eq!(
        worker_tool_order(&generic(ScratchpadWiring::NotWired, Some("skills"))),
        vec!["read_artifact", "submit_result", "load_skill", "read_skill_file"]
    );
    assert_eq!(
        worker_tool_order(&generic(ScratchpadWiring::Wired, None)),
        vec!["read_artifact", "submit_result"]
    );
}

#[test]
fn gate_r8_conversation_growth() {
    let round = |n: usize| RoundTexts {
        decision: format!("decision {n}"),
        follow_up: format!("follow-up {n}"),
    };
    assert_eq!(
        grow_conversation("plan".to_owned(), vec![round(1), round(2)]),
        vec![
            user("plan"),
            assistant("decision 1"),
            user("follow-up 1"),
            assistant("decision 2"),
            user("follow-up 2"),
        ]
    );
    assert_eq!(grow_conversation("plan".to_owned(), vec![]), vec![user("plan")]);

    let scenario = CoordinatorScenario::new(
        preamble(no_optional_tools()),
        goal(),
        WorkerRosterFixture::new(
            OrchestrationConfig {
                max_planning_cycles: 4,
                ..analyst_operator()
            },
            Vec::new(),
        ),
        CoordinatorCall::Continuation(
            ContinuationThread::new(failure_thread_iterations()).expect("two iterations"),
        ),
    )
    .expect("the scenario is reachable");
    let request = coordinator_envelope(
        &scenario,
        "",
        "plan".to_owned(),
        vec![round(1), round(2)],
        vec![],
    );
    assert_eq!(
        request.messages,
        grow_conversation("plan".to_owned(), vec![round(1), round(2)])
    );
    assert!(request.system.contains("Playbook."));
}

const ROLE_PREAMBLE: &str = "You are the payments log analyst. Ground every claim in log evidence.";

const EMPTY_FRAME_TASK: &str =
    "Collect the error groups from the payments logs for the last six hours";

fn bare_role_preamble() -> WorkerPreambleFixture {
    WorkerPreambleFixture::Role {
        role_preamble: ROLE_PREAMBLE.to_owned(),
        vector_stores: Vec::new(),
        appends: WorkerPreambleAppends {
            scratchpad: ScratchpadWiring::NotWired,
            skill_catalog: None,
        },
    }
}

#[test]
fn empty_frame_branches_render_byte_identically() {
    let fresh = WorkerScenario {
        preamble: bare_role_preamble(),
        frame: WorkerFrameFixture::EmptyFirstTurn {
            task: EMPTY_FRAME_TASK.to_owned(),
        },
    };
    let replan = WorkerScenario {
        preamble: bare_role_preamble(),
        frame: WorkerFrameFixture::EmptyReplanBoundary {
            task: EMPTY_FRAME_TASK.to_owned(),
        },
    };
    let fresh = worker_envelope(&fresh, "unused", vec![]);
    let replan = worker_envelope(&replan, "", vec![]);
    assert_eq!(normalized(&fresh).as_str(), normalized(&replan).as_str());
    assert!(fresh.messages[0].text().contains(EMPTY_FRAME_TASK));
}

#[test]
fn a_populated_frame_stands_before_the_task() {
    let target = "Correlate the deployment timeline with the error groups";
    let mut plan = Plan::new(QUERY);
    let mut done = Task::new(
        0,
        "Collect the error groups from the payments logs",
        "fixture ancestor",
    );
    done.complete("Found 47 error groups across 3 services.".to_owned());
    plan.add_task(done);
    plan.add_task(Task::new(1, "Assemble the deployment timeline", "r").with_dependency(0));
    plan.add_task(Task::new(2, target, "fixture target").with_dependency(1));
    let graph = FrameGraph::new(plan, 2).expect("transitive frame renders");
    assert_eq!(graph.task_id(), 2);
    assert_eq!(graph.task_text(), target);
    let scenario = WorkerScenario {
        preamble: generic(ScratchpadWiring::NotWired, None),
        frame: WorkerFrameFixture::Populated(graph),
    };
    let request = worker_envelope(&scenario, "FRAME", vec![]);
    assert_eq!(
        request.messages[0].text(),
        format!("FRAME\n\nYOUR TASK\n\n{target}\n")
    );
}

#[test]
fn a_roster_keeps_its_catalog() {
    let store = VectorStoreConfig {
        name: "runbooks".to_owned(),
        context_prefix: Some("Operational runbooks for the payments platform".to_owned()),
    };
    let roster = WorkerRosterFixture::new(analyst_operator(), vec![store]);
    assert_eq!(roster.vector_catalog()[0].name, "runbooks");
    assert_eq!(roster.config().workers, vec!["analyst", "operator"]);
}

#[test]
fn a_history_keeps_its_runs_in_order() {
    let history = SessionHistoryFixture::new(vec![
        catch_all_manifest(),
        direct_manifest(),
        routed_manifest(),
    ])
    .expect("fixture manifests are non-empty and recent-first");
    let ids: Vec<&str> = history.manifests().iter().map(|m| m.run_id.as_str()).collect();
    assert_eq!(ids, vec!["run-catch-all-0001", "run-direct-0002", "run-routed-0001"]);
    assert!(SessionHistoryFixture::new(vec![catch_all_manifest()]).is_ok());
}

#[test]
fn preambles_are_composed_in_order() {
    let store = || VectorStoreConfig {
        name: "docs".to_owned(),
        context_prefix: None,
    };
    let mut fixture = preamble(no_optional_tools());
    fixture.skill_catalog = Some("\nSKILLS\n".to_owned());
    fixture.vector_stores = vec![store()];
    fixture.session_history =
        Some(SessionHistoryFixture::new(vec![direct_manifest(), routed_manifest()]).unwrap());
    let text = compose_coordinator_preamble(&fixture, "SESSION");
    let skills = text.find("SKILLS").unwrap();
    let stores = text.find("Available Knowledge Bases").unwrap();
    let session = text.find("\nSESSION").unwrap();
    assert!(skills < stores && stores < session);
    assert!(text.ends_with("\nSESSION"));

    let role = compose_worker_preamble(&WorkerPreambleFixture::Role {
        role_preamble: "You are the analyst.".to_owned(),
        vector_stores: vec![store()],
        appends: WorkerPreambleAppends {
            scratchpad: ScratchpadWiring::Wired,
            skill_catalog: Some("SKILLS".to_owned()),
        },
    });
    assert!(role.contains("You are the analyst."));
    let stores = role.find("Available Knowledge Bases").unwrap();
    let scratchpad = role.find(SCRATCHPAD_PREAMBLE).unwrap();
    assert!(stores < scratchpad);
    assert!(role.ends_with("SKILLS"));
    let plain = compose_worker_preamble(&generic(ScratchpadWiring::NotWired, None));
    assert!(plain.contains("(No custom instructions provided)"));
}
