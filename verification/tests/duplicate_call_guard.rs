//! The guard against calling one tool over and over.
use aura::json::{copy, Json, Member};
use aura::mcp::response::CallOutcome;
use aura::orchestration::duplicate_call_guard::{
    canonicalize_args, extract_guard_data, fingerprint, render_template, DuplicateCallGuard,
    ToolCallContext, TransformOutputResult, GUIDANCE_TEMPLATE,
};

fn text(s: &str) -> Json {
    Json::Text(s.to_owned())
}

fn object(pairs: Vec<(&str, Json)>) -> Json {
    Json::Object(
        pairs
            .into_iter()
            .map(|(key, value)| Member {
                key: key.to_owned(),
                value,
            })
            .collect(),
    )
}

fn call(
    guard: &mut DuplicateCallGuard,
    ctx: &ToolCallContext,
    args: &Json,
    output: &str,
    outcome: &CallOutcome,
) -> TransformOutputResult {
    let r = guard.transform_args(copy(args), ctx);
    guard.transform_output(output.to_string(), outcome, r.extracted.as_ref())
}

fn success(s: &str) -> CallOutcome {
    CallOutcome::Success(s.to_string())
}

fn general_error(s: &str) -> CallOutcome {
    CallOutcome::GeneralToolError {
        content: s.to_string(),
        code: None,
    }
}

fn schema_error(s: &str) -> CallOutcome {
    CallOutcome::SchemaError {
        content: s.to_string(),
        code: -32602,
    }
}

#[test]
fn test_canonicalize_args_strips_aura_reasoning() {
    let a = object(vec![("number", Json::UInt(45)), ("_aura_reasoning", text("reason A"))]);
    let b = object(vec![("number", Json::UInt(45)), ("_aura_reasoning", text("reason B"))]);
    let c = object(vec![("number", Json::UInt(45))]);
    assert_eq!(canonicalize_args(&a), canonicalize_args(&b));
    assert_eq!(canonicalize_args(&a), canonicalize_args(&c));
}

#[test]
fn test_canonicalize_args_sorts_keys() {
    let a = object(vec![("b", Json::UInt(2)), ("a", Json::UInt(1))]);
    let b = object(vec![("a", Json::UInt(1)), ("b", Json::UInt(2))]);
    assert_eq!(canonicalize_args(&a), canonicalize_args(&b));
}

#[test]
fn test_no_annotation_below_nudge() {
    let mut guard = DuplicateCallGuard::new(3, 5, false);
    let ctx = ToolCallContext::new("mean");
    let args = object(vec![("numbers", Json::Array(vec![Json::UInt(1), Json::UInt(2), Json::UInt(3)]))]);

    for _ in 0..2 {
        let r = call(&mut guard, &ctx, &args, "2.0", &success("2.0"));
        assert!(!r.output.contains("[DUPLICATE_CALL_GUIDANCE]"));
        assert!(!r.output.contains("[DUPLICATE_CALL_ABORT]"));
    }
    assert!(!guard.is_escalated());
}

#[test]
fn test_nudge_at_threshold() {
    let mut guard = DuplicateCallGuard::new(3, 5, false);
    let ctx = ToolCallContext::new("mean");
    let args = object(vec![("numbers", Json::Array(vec![Json::UInt(1), Json::UInt(2), Json::UInt(3)]))]);

    for _ in 0..2 {
        call(&mut guard, &ctx, &args, "2.0", &success("2.0"));
    }

    let r = call(&mut guard, &ctx, &args, "2.0", &success("2.0"));
    assert!(r.output.contains("[DUPLICATE_CALL_GUIDANCE]"));
    assert!(r.output.starts_with("2.0"));
    assert!(!guard.is_escalated());
}

#[test]
fn test_block_at_threshold_sets_flag() {
    let mut guard = DuplicateCallGuard::new(3, 5, false);
    let ctx = ToolCallContext::new("mean");
    let args = object(vec![("numbers", Json::Array(vec![Json::UInt(1), Json::UInt(2), Json::UInt(3)]))]);

    for _ in 0..4 {
        call(&mut guard, &ctx, &args, "2.0", &success("2.0"));
    }

    let r = call(&mut guard, &ctx, &args, "2.0", &success("2.0"));
    assert!(r.output.contains("[DUPLICATE_CALL_ABORT]"));
    assert!(r.output.starts_with("2.0"));
    assert!(guard.is_escalated());
}

#[test]
fn test_general_error_does_not_increment() {
    let mut guard = DuplicateCallGuard::new(2, 4, false);
    let ctx = ToolCallContext::new("api");
    let args = object(vec![("q", text("test"))]);

    call(&mut guard, &ctx, &args, "timeout", &success("timeout"));

    for _ in 0..5 {
        let r = call(&mut guard, &ctx, &args, "timeout", &general_error("timeout"));
        assert!(!r.output.contains("[DUPLICATE_CALL_GUIDANCE]"));
        assert!(!r.output.contains("[DUPLICATE_CALL_ABORT]"));
    }
    assert!(!guard.is_escalated());
}

#[test]
fn test_schema_error_increments() {
    let mut guard = DuplicateCallGuard::new(2, 4, false);
    let ctx = ToolCallContext::new("api");
    let args = object(vec![("bad", text("field"))]);

    call(
        &mut guard,
        &ctx,
        &args,
        "missing param",
        &schema_error("missing param"),
    );

    let r = call(
        &mut guard,
        &ctx,
        &args,
        "missing param",
        &schema_error("missing param"),
    );
    assert!(r.output.contains("[DUPLICATE_CALL_GUIDANCE]"));
    assert!(!guard.is_escalated());
}

#[test]
fn test_different_result_resets() {
    let mut guard = DuplicateCallGuard::new(2, 4, false);
    let ctx = ToolCallContext::new("get_time");
    let args = object(vec![("tz", text("UTC"))]);

    call(&mut guard, &ctx, &args, "12:00", &success("12:00"));
    call(&mut guard, &ctx, &args, "12:01", &success("12:01"));

    let r = call(&mut guard, &ctx, &args, "12:01", &success("12:01"));
    assert!(r.output.contains("[DUPLICATE_CALL_GUIDANCE]"));
}

#[test]
fn test_different_tool_resets() {
    let mut guard = DuplicateCallGuard::new(2, 4, false);
    let args = object(vec![("x", Json::UInt(1))]);
    let ctx_a = ToolCallContext::new("tool_a");
    let ctx_b = ToolCallContext::new("tool_b");

    call(&mut guard, &ctx_a, &args, "1", &success("1"));
    call(&mut guard, &ctx_a, &args, "1", &success("1"));

    let r = call(&mut guard, &ctx_b, &args, "1", &success("1"));
    assert!(!r.output.contains("[DUPLICATE_CALL_GUIDANCE]"));
}

#[test]
fn test_flag_monotonic_after_block() {
    let mut guard = DuplicateCallGuard::new(2, 3, false);
    let ctx = ToolCallContext::new("t");
    let args = object(vec![("x", Json::UInt(1))]);

    for _ in 0..3 {
        call(&mut guard, &ctx, &args, "r", &success("r"));
    }
    assert!(guard.is_escalated());

    let r = call(&mut guard, &ctx, &args, "r", &success("r"));
    assert!(!r.output.contains("[DUPLICATE_CALL_ABORT]"));
    assert!(guard.is_escalated());
}

#[test]
fn test_real_output_preserved() {
    let mut guard = DuplicateCallGuard::new(2, 4, false);
    let ctx = ToolCallContext::new("calc");
    let args = object(vec![("x", Json::UInt(5))]);

    call(&mut guard, &ctx, &args, "25", &success("25"));
    let r = call(&mut guard, &ctx, &args, "25", &success("25"));
    assert!(r.output.starts_with("25"));
    assert!(r.output.contains("[DUPLICATE_CALL_GUIDANCE]"));
}

#[test]
fn test_nudge_then_block_progression() {
    let mut guard = DuplicateCallGuard::new(3, 5, false);
    let ctx = ToolCallContext::new("calc");
    let args = object(vec![("x", Json::UInt(5))]);

    // Calls 1-2: below nudge_threshold=3
    for i in 1..=2 {
        let r = call(&mut guard, &ctx, &args, "25", &success("25"));
        assert!(
            !r.output.contains("[DUPLICATE_CALL"),
            "unexpected annotation on call {i}"
        );
    }

    // Calls 3-4: at/above nudge, below block
    for _ in 3..=4 {
        let r = call(&mut guard, &ctx, &args, "25", &success("25"));
        assert!(r.output.contains("[DUPLICATE_CALL_GUIDANCE]"));
        assert!(!r.output.contains("[DUPLICATE_CALL_ABORT]"));
    }
    assert!(!guard.is_escalated());

    // Call 5: block + flag
    let r = call(&mut guard, &ctx, &args, "25", &success("25"));
    assert!(r.output.contains("[DUPLICATE_CALL_ABORT]"));
    assert!(guard.is_escalated());
}

#[test]
fn test_ping_pong_tracked_independently() {
    let mut guard = DuplicateCallGuard::new(3, 5, false);
    let args_a = object(vec![("x", Json::UInt(1))]);
    let args_b = object(vec![("x", Json::UInt(2))]);
    let ctx = ToolCallContext::new("calc");

    // Alternate: A, B, A, B — each pair's counter is independent
    for _ in 0..2 {
        call(&mut guard, &ctx, &args_a, "1", &success("1"));
        call(&mut guard, &ctx, &args_b, "2", &success("2"));
    }

    // A at count=3 → nudge
    let r = call(&mut guard, &ctx, &args_a, "1", &success("1"));
    assert!(r.output.contains("[DUPLICATE_CALL_GUIDANCE]"));

    // B at count=3 → nudge
    let r = call(&mut guard, &ctx, &args_b, "2", &success("2"));
    assert!(r.output.contains("[DUPLICATE_CALL_GUIDANCE]"));

    assert!(!guard.is_escalated());
}

#[test]
fn test_extract_guard_data_from_composed_array() {
    let extracted = Json::Array(vec![object(vec![("observer_tool_call_id", text("task0_mean_1"))]), object(vec![("dup_guard_tool_name", text("mean")), ("dup_guard_args_hash", Json::UInt(12345))]), object(vec![("persistence_key", text("abc"))])]);

    let (name, hash) = extract_guard_data(Some(&extracted)).unwrap();
    assert_eq!(name, "mean");
    assert_eq!(hash, 12345);
}

#[test]
fn test_extract_guard_data_direct() {
    let extracted =
        object(vec![("dup_guard_tool_name", text("sin")), ("dup_guard_args_hash", Json::UInt(99))]);

    let (name, hash) = extract_guard_data(Some(&extracted)).unwrap();
    assert_eq!(name, "sin");
    assert_eq!(hash, 99);
}

#[test]
fn the_note_names_the_tool_and_the_count() {
    let mut guard = DuplicateCallGuard::new(2, 9, false);
    let ctx = ToolCallContext::new("mean");
    let args = object(vec![]);
    call(&mut guard, &ctx, &args, "2.0", &success("2.0"));
    let r = call(&mut guard, &ctx, &args, "2.0", &success("2.0"));
    assert_eq!(
        r.output,
        format!("2.0\n\n{}", render_template(GUIDANCE_TEMPLATE, "mean", 2))
    );
    assert_eq!(render_template("%%TOOL_NAME%% x%%COUNT%%", "mean", 12), "mean x12");
}

#[test]
fn canonical_arguments_as_they_are_written() {
    let args = object(vec![
        ("b", Json::Array(vec![Json::Null, Json::Bool(true), Json::Int(-1)])),
        ("a", object(vec![("_aura_reasoning", text("why")), ("k", text("v\"w"))])),
    ]);
    assert_eq!(canonicalize_args(&args), r#"{a:{k:"v\"w"},b:[null,true,-1]}"#);
}

#[test]
fn fingerprints_tell_calls_apart() {
    let one = object(vec![("x", Json::UInt(1))]);
    let two = object(vec![("x", Json::UInt(2))]);
    assert_eq!(fingerprint("calc", &one), fingerprint("calc", &one));
    assert_ne!(fingerprint("calc", &one), fingerprint("calc", &two));
    assert_ne!(fingerprint("calc", &one), fingerprint("calc2", &one));
    assert_eq!(extract_guard_data(None), None);
    assert_eq!(extract_guard_data(Some(&Json::Null)), None);
}

#[test]
fn a_guard_of_an_escalated_worker_does_nothing() {
    let ctx = ToolCallContext::new("mean");
    let args = object(vec![("n", Json::UInt(1))]);
    let mut guard = DuplicateCallGuard::new(1, 2, true);
    for _ in 0..3 {
        assert_eq!(call(&mut guard, &ctx, &args, "2.0", &success("2.0")).output, "2.0");
    }
    assert!(guard.is_escalated());

    let mut guard = DuplicateCallGuard::new(1, 5, false);
    assert_ne!(call(&mut guard, &ctx, &args, "2.0", &success("2.0")).output, "2.0");
    guard.escalate();
    assert_eq!(call(&mut guard, &ctx, &args, "2.0", &success("2.0")).output, "2.0");
}

#[test]
fn a_run_goes_on_whatever_else_is_called() {
    let ctx = ToolCallContext::new("mean");
    let args = object(vec![("n", Json::UInt(1))]);
    let others = object(vec![("n", Json::UInt(2))]);
    let mut guard = DuplicateCallGuard::new(3, 5, false);
    call(&mut guard, &ctx, &args, "x", &success("x"));
    call(&mut guard, &ctx, &args, "2.0", &success("2.0"));
    call(&mut guard, &ctx, &others, "7", &success("7"));
    call(&mut guard, &ctx, &args, "oops", &general_error("oops"));
    let second = call(&mut guard, &ctx, &args, "2.0", &success("2.0"));
    assert_eq!(second.output, "2.0");
    let third = call(&mut guard, &ctx, &args, "2.0", &success("2.0"));
    assert!(third.output.contains("[DUPLICATE_CALL_GUIDANCE]"));
}

#[test]
fn arguments_count_by_content_at_every_depth() {
    let nested = |first: &str, why: &str| {
        let mut inner = vec![("a", Json::UInt(1)), ("b", Json::UInt(2))];
        if first == "b" {
            inner.reverse();
        }
        inner.push(("_aura_reasoning", Json::Text(why.to_owned())));
        object(vec![("list", Json::Array(vec![object(inner)]))])
    };
    assert_eq!(
        fingerprint("mean", &nested("a", "one")),
        fingerprint("mean", &nested("b", "two"))
    );
}
