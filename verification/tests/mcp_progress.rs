//! Progress, and whom it is for.
use aura::mcp::client::RequestId;
use aura::mcp::progress::{
    ProgressEnabledHandler, ProgressStep, AURA_WEBSITE_URL, CRATE_VERSION,
};

fn token(n: i64) -> RequestId {
    RequestId::Number(n)
}

fn handler_owning(pairs: &[(i64, &str)]) -> ProgressEnabledHandler {
    let mut handler = ProgressEnabledHandler::new("test/0");
    for (t, run) in pairs {
        handler.own(token(*t), (*run).to_string());
    }
    handler
}

#[test]
fn handshake_info_splits_the_user_agent_into_name_and_version() {
    let handler = ProgressEnabledHandler::new("aura/1.2.3");
    let info = handler.get_info();
    assert_eq!(info.name, "aura");
    assert_eq!(info.version, "1.2.3");
    assert_eq!(info.website_url.as_deref(), Some(AURA_WEBSITE_URL));
}

#[test]
fn handshake_info_falls_back_to_the_crate_version() {
    for token in ["mezmo-aura", "mezmo-aura/", " mezmo-aura / "] {
        let handler = ProgressEnabledHandler::new(token);
        let info = handler.get_info();
        assert_eq!(info.name, "mezmo-aura", "token {token:?}");
        assert_eq!(info.version, CRATE_VERSION, "token {token:?}");
    }
}

#[test]
fn progress_test_handler_creation() {
    let handler = ProgressEnabledHandler::new("test/0");
    assert_eq!(handler.get_info().name, "test");
    assert_eq!(handler.orphaned_count(), 0);
}

#[test]
fn mcp_progress_test_handler_creation() {
    let handler = handler_owning(&[]);
    assert_eq!(handler.get_info().version, "0");
    assert!(!handler.logged_orphaned_warning());
}

#[test]
fn test_handler_with_request_id() {
    let handler = handler_owning(&[(1, "req_test_123")]);
    assert_eq!(handler.owner_of(&token(1)), Some("req_test_123".to_string()));
}

#[test]
fn test_handler_request_id_changes() {
    let mut handler = handler_owning(&[]);
    assert_eq!(handler.owner_of(&token(1)), None);
    handler.own(token(1), "req_456".to_string());
    assert_eq!(handler.owner_of(&token(1)), Some("req_456".to_string()));
}

#[test]
fn progress_for_a_request_is_routed_to_it() {
    let mut handler = ProgressEnabledHandler::new("test/0");
    assert_eq!(
        handler.on_progress_for(Some("req_test_123".to_owned())),
        ProgressStep::Routed("req_test_123".to_owned())
    );
    assert_eq!(
        handler.on_progress_for(Some("req_456".to_owned())),
        ProgressStep::Routed("req_456".to_owned())
    );
    assert_eq!(handler.orphaned_count(), 0);
    assert!(!handler.logged_orphaned_warning());
}

#[test]
fn test_orphaned_tracking() {
    let mut handler = ProgressEnabledHandler::new("test/0");

    assert!(!handler.logged_orphaned_warning());
    assert_eq!(handler.orphaned_count(), 0);

    assert_eq!(
        handler.on_progress_for(None),
        ProgressStep::Orphaned { count: 1, warn: true }
    );
    assert_eq!(
        handler.on_progress(&token(3)),
        ProgressStep::Orphaned { count: 2, warn: false }
    );
    assert_eq!(handler.orphaned_count(), 2);
    assert!(handler.logged_orphaned_warning());

    handler.reset_orphaned_tracking();
    assert!(!handler.logged_orphaned_warning());
    assert_eq!(handler.orphaned_count(), 0);
}

#[test]
fn an_unowned_token_has_no_run() {
    assert_eq!(handler_owning(&[]).owner_of(&token(1)), None);
}

#[test]
fn concurrent_runs_route_by_their_own_token() {
    let mut handler = handler_owning(&[(1, "run_a"), (2, "run_b")]);

    assert_eq!(handler.owner_of(&token(1)).as_deref(), Some("run_a"));
    assert_eq!(handler.owner_of(&token(2)).as_deref(), Some("run_b"));
    assert_eq!(
        handler.on_progress(&token(2)),
        ProgressStep::Routed("run_b".to_owned())
    );
    assert_eq!(handler.orphaned_count(), 0);
}

#[test]
fn a_released_token_stops_routing() {
    let mut handler = handler_owning(&[(6, "run_b")]);
    handler.own(token(7), "run_a".to_string());
    assert_eq!(handler.owner_of(&token(7)).as_deref(), Some("run_a"));

    handler.release(&token(7));
    assert_eq!(handler.owner_of(&token(7)), None);
    assert_eq!(handler.owner_of(&token(6)).as_deref(), Some("run_b"));
}

#[test]
fn numbers_and_texts_are_different_tokens() {
    let mut handler = handler_owning(&[]);
    handler.own(RequestId::Text("1".to_owned()), "run_a".to_owned());
    assert_eq!(handler.owner_of(&token(1)), None);
    assert_eq!(
        handler.owner_of(&RequestId::Text("1".to_owned())).as_deref(),
        Some("run_a")
    );
}
