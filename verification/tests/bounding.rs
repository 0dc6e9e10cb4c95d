//! Bounds on what is stored, shown and repeated.
use aura::orchestration::bounding::{
    truncate_bytes, truncate_chars, BoundingConfig, ByteWidth, CharWidth, DuplicateCallPolicy,
    DurationPromotion, ErrorPreviewWidth, FailureHandleWidth, GoalWidth, NamedCheckWidth,
    NonZeroCount, ResultSpillBudget, ResultSpillDecision, RoutingRationaleWidth,
    SessionHistoryLimit, SizePromotion, ToolListLimit, ToolOutputSpillBudget, ToolReasoningWidth,
    TruncateMarker,
};
use aura::orchestration::config::OrchestrationConfig;


#[test]
fn byte_width_emoji_boundary() {
    let width = RoutingRationaleWidth::new(ByteWidth::new(8).unwrap());
    let got = width.truncate("Hello 🎉 World");
    assert_eq!(got, "Hello ...");
}

#[test]
fn char_width_cjk_boundary() {
    let width = FailureHandleWidth::new(CharWidth::new(2).unwrap());
    assert_eq!(width.truncate("日本語テスト"), "日本");
}

#[test]
fn result_spill_decide_branches() {
    let budget = ResultSpillBudget::from_config(10, 5);
    assert_eq!(budget.decide("short"), ResultSpillDecision::Inline);

    let text = "this text is longer than ten bytes";
    match budget.decide(text) {
        ResultSpillDecision::Spill {
            summary,
            result_len,
            was_truncated,
        } => {
            assert_eq!(result_len, text.len());
            assert_eq!(summary, "this ");
            assert!(was_truncated);
        }
        _ => panic!("expected Spill"),
    }

    let zero_threshold = ResultSpillBudget::from_config(0, 0);
    match zero_threshold.decide("x") {
        ResultSpillDecision::Spill {
            summary,
            was_truncated,
            ..
        } => {
            assert!(summary.is_empty());
            assert!(was_truncated);
        }
        _ => panic!("expected Spill"),
    }

    let wide_summary = ResultSpillBudget::from_config(5, 100);
    assert_eq!(wide_summary.summary_width().get(), 100);
    let long = "a".repeat(10);
    match wide_summary.decide(long.as_str()) {
        ResultSpillDecision::Spill {
            summary,
            was_truncated,
            ..
        } => {
            assert_eq!(summary, long);
            assert!(!was_truncated);
        }
        _ => panic!("expected Spill"),
    }
}

#[test]
fn duplicate_call_policy_collapse() {
    let eq = DuplicateCallPolicy::new(5, 5);
    assert!(matches!(eq, DuplicateCallPolicy::BlockOnly { .. }));
    assert_eq!(eq.nudge_threshold(), None);
    assert_eq!(eq.block_threshold(), 5);

    let gt = DuplicateCallPolicy::new(7, 3);
    assert!(matches!(gt, DuplicateCallPolicy::BlockOnly { .. }));
    assert_eq!(gt.nudge_threshold(), None);
    assert_eq!(gt.block_threshold(), 3);

    let nudge = DuplicateCallPolicy::new(3, 5);
    assert!(matches!(nudge, DuplicateCallPolicy::NudgeThenBlock { .. }));
    assert_eq!(nudge.nudge_threshold(), Some(3));
    assert_eq!(nudge.block_threshold(), 5);
}

#[test]
fn session_history_limit_states() {
    let disabled = SessionHistoryLimit::new(0);
    assert!(matches!(disabled, SessionHistoryLimit::Disabled));
    assert!(!disabled.is_enabled());
    assert_eq!(disabled.get(), 0);

    let limited = SessionHistoryLimit::new(3);
    assert!(matches!(limited, SessionHistoryLimit::Limited(n) if n.get() == 3));
    assert!(limited.is_enabled());
    assert_eq!(limited.get(), 3);
}

#[test]
fn truncate_marker_styles() {
    let reasoning = ToolReasoningWidth::default_width().truncate("a".repeat(101).as_str());
    assert!(reasoning.ends_with('…'));
    assert_eq!(reasoning.chars().count(), 101);

    let rationale = RoutingRationaleWidth::default_width().truncate("a".repeat(81).as_str());
    assert!(rationale.ends_with("..."));
    assert_eq!(rationale.len(), 83);

    let goal = GoalWidth::default_width().truncate("a".repeat(201).as_str());
    assert!(!goal.ends_with("...") && !goal.ends_with('…'));
    assert_eq!(goal.len(), 200);
}

#[test]
fn truncate_marker_suppressed_when_not_cut() {
    assert_eq!(RoutingRationaleWidth::default_width().truncate("short"), "short");
    assert_eq!(ToolReasoningWidth::default_width().truncate("short"), "short");
}

#[test]
fn truncated_summary_display() {
    let budget = ResultSpillBudget::from_config(100, 5);

    let long = budget.truncate_to_summary("hello world");
    assert_eq!(long.to_string(), "hello");
    assert!(long.was_truncated());

    let short = budget.truncate_to_summary("hi");
    assert_eq!(short.to_string(), "hi");
    assert!(!short.was_truncated());
}

#[test]
fn cutting_respects_characters_and_widths() {
    assert_eq!(truncate_bytes("aé", 2, TruncateMarker::Unmarked), "a");
    assert_eq!(truncate_bytes("aé", 3, TruncateMarker::Dots), "aé");
    assert_eq!(truncate_chars("日本語", 1, TruncateMarker::EllipsisChar), "日…");
    assert!(ByteWidth::new(0).is_none());
    assert!(CharWidth::new(0).is_none());
    assert!(NonZeroCount::new(0).is_none());
}

#[test]
fn tool_outputs_are_promoted_by_size_or_duration() {
    let budget = ToolOutputSpillBudget::from_config(4, 10);
    assert!(!budget.size_qualifies("four"));
    assert!(budget.size_qualifies("fives"));
    assert!(!budget.duration_qualifies(10_000_000));
    assert!(budget.duration_qualifies(10_000_001));

    let all = SizePromotion::from_threshold(0);
    assert!(all.qualifies(""));
    assert_eq!(all.threshold_bytes(), 0);
    let none = DurationPromotion::from_millis(0);
    assert!(!none.qualifies(u128::MAX));
    assert_eq!(none.threshold_millis(), 0);
}

#[test]
fn a_configuration_gives_the_bounds() {
    let config = OrchestrationConfig::default();
    let bounds = BoundingConfig::from_orchestration(&config);
    assert_eq!(
        bounds.result_spill().threshold().get(),
        config.result_artifact_threshold()
    );
    assert_eq!(bounds.session_history_limit().get(), config.session_history_turns());
    assert_eq!(bounds.log_preview_widths().goal().truncate("short"), "short");
    assert_eq!(
        bounds.manifest_widths().result_preview().truncate(&"x".repeat(201)).len(),
        200
    );
    assert_eq!(ToolListLimit::new(0).get(), 0);
    assert_eq!(ToolListLimit::new(7).get(), 7);
}

#[test]
fn named_checks_fit_their_width() {
    let width = NamedCheckWidth::default_width();
    assert!(width.fits(&"é".repeat(500)));
    assert!(!width.fits(&"é".repeat(501)));
    let (text, cut) = ErrorPreviewWidth::default_width().truncate_with_flag(&"a".repeat(2001));
    assert_eq!(text.len(), 2000);
    assert!(cut);
}
