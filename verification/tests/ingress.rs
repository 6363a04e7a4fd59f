use orchd::cli::DispatchMode;
use orchd::errors::{runtime_state_for_dispatch_error, DispatchError};
use orchd::ingress::{
    begin_webhook, event_type_of, process_webhook, webhook_status, IngressAction, IngressReply,
    IngressStep,
};
use orchd::progress::{Cursors, Repos};
use orchd::store::{heartbeat_once, Decisions, Events};
use orchd::types::OrchdRuntimeState;
use orchd::webhook::EventContext;

fn comment(text: &str, issue: Option<u64>) -> EventContext {
    EventContext {
        repo_full_name: "main/a".to_string(),
        issue_number: issue,
        actor_login: Some("main".to_string()),
        text: Some(text.to_string()),
        source_comment_id: Some(3),
        source_created_at: None,
    }
}

fn begin(mode: DispatchMode, text: &str, issue: Option<u64>) -> IngressStep {
    begin_webhook(mode, true, "issue_comment", "d1", &None, Some(&comment(text, issue)), "{}")
}

fn walk(step: IngressStep, replies: Vec<IngressReply<String>>) -> IngressStep {
    let mut at = step;
    for reply in replies {
        at = process_webhook(at.0, reply);
    }
    at
}

fn numbered(mode: DispatchMode, text: &str) -> IngressStep {
    walk(
        begin(mode, text, Some(7)),
        vec![IngressReply::Number(11), IngressReply::Number(12)],
    )
}

fn update(step: &IngressStep) -> (bool, Option<String>) {
    match &step.1 {
        IngressAction::UpdateDecision { projected, error } => (*projected, error.clone()),
        _ => panic!("the decision is updated"),
    }
}

#[test]
fn duplicates_are_answered() {
    let step = begin(DispatchMode::Exec, "@codex-dev impl", Some(7));
    assert!(matches!(step.1, IngressAction::RecordEvent));
    assert_eq!(step.0.event.delivery_id, "d1");
    let step = walk(step, vec![IngressReply::Nothing]);
    match &step.1 {
        IngressAction::Answer(o) => {
            assert_eq!(o.status, "duplicate");
            assert_eq!(o.decision, "duplicate");
            assert_eq!(o.reason_code, "duplicate_delivery");
            assert!(o.duplicate);
        }
        _ => panic!("a duplicate is answered"),
    }
}

#[test]
fn ignored_events_are_only_recorded() {
    let step = numbered(DispatchMode::Exec, "hello");
    assert_eq!(update(&step), (false, None));
    let step = walk(step, vec![IngressReply::Done]);
    match step.1 {
        IngressAction::Answer(o) => {
            assert_eq!(o.status, "processed");
            assert_eq!(o.reason_code, "no_directive");
            assert!(!o.duplicate);
        }
        _ => panic!("the event is answered"),
    }
}

#[test]
fn dry_runs_only_comment() {
    let step = numbered(DispatchMode::DryRun, "@codex-dev impl");
    assert!(matches!(step.1, IngressAction::Project(OrchdRuntimeState::Queued)));
    let step = walk(step, vec![IngressReply::Done]);
    match &step.1 {
        IngressAction::PostComment(t) => assert_eq!(
            t,
            "orchd: accepted (dry-run) directive=impl role=codex-dev reason=explicit_directive would_dispatch=true delivery=d1"
        ),
        _ => panic!("the comment is posted"),
    }
    let step = walk(step, vec![IngressReply::Failed("no".to_string())]);
    assert_eq!(update(&step), (true, Some("no".to_string())));
}

#[test]
fn accepted_decisions_are_dispatched() {
    let step = walk(
        numbered(DispatchMode::Exec, "@codex-dev impl"),
        vec![IngressReply::Failed("no label".to_string())],
    );
    assert!(matches!(step.1, IngressAction::QueryRepoInflight));
    let step = walk(step, vec![IngressReply::Nothing]);
    assert!(matches!(step.1, IngressAction::Dispatch));
    let step = walk(step, vec![IngressReply::Done]);
    assert!(matches!(step.1, IngressAction::Project(OrchdRuntimeState::Running)));
    let step = walk(step, vec![IngressReply::Done]);
    assert!(matches!(&step.1, IngressAction::AdvanceCursor(role) if role == "codex-dev"));
    let step = walk(step, vec![IngressReply::Done]);
    assert_eq!(update(&step), (true, Some("no label".to_string())));
}

#[test]
fn changes_wait_for_a_busy_repository() {
    let step = walk(
        numbered(DispatchMode::Exec, "@codex-dev impl"),
        vec![IngressReply::Done, IngressReply::Number(4)],
    );
    assert_eq!(update(&step), (true, None));
    let step = walk(
        numbered(DispatchMode::Exec, "@codex-dev impl"),
        vec![IngressReply::Done, IngressReply::Failed("locked".to_string())],
    );
    assert!(matches!(step.1, IngressAction::Dispatch));
    assert_eq!(
        step.0.status_error,
        Some("failed checking repo inflight impl dispatch: locked".to_string())
    );
}

#[test]
fn failed_dispatches_are_shown() {
    let error = DispatchError::ActorNotAllowed("x".to_string());
    let state = runtime_state_for_dispatch_error(&error);
    let said = format!("dispatch {}: {}", error.reason_code(), error.message());
    let step = walk(
        numbered(DispatchMode::Exec, "@codex-dev impl"),
        vec![IngressReply::Done, IngressReply::Nothing, IngressReply::DispatchFailed(error)],
    );
    assert!(matches!(&step.1, IngressAction::Project(s) if *s == state));
    let step = walk(step, vec![IngressReply::Done]);
    assert_eq!(update(&step), (true, Some(said)));
}

#[test]
fn events_that_cannot_be_recorded_are_refused() {
    let step = walk(
        begin(DispatchMode::Exec, "x", None),
        vec![IngressReply::Failed("disk".to_string())],
    );
    assert!(matches!(&step.1, IngressAction::Refuse(e) if e == "disk"));
    assert_eq!(webhook_status(&step.1), 400);
}

#[test]
fn deliveries_are_recorded_once() {
    let mut events = Events::new();
    let event = || begin(DispatchMode::Exec, "x", Some(7)).0.event;
    assert_eq!(events.insert_event(event(), "t0"), Ok(Some(1)));
    assert_eq!(events.insert_event(event(), "t1"), Ok(None));
    let mut other = event();
    other.event_type = "issues".to_string();
    assert_eq!(events.insert_event(other, "t2"), Ok(Some(2)));
    assert_eq!(events.rows.len(), 2);
    assert_eq!(events.rows[0].received_at, "t0");
    let mut large = event();
    large.issue_number = Some(u64::MAX);
    assert_eq!(
        events.insert_event(large, "t3"),
        Err("out of range integral type conversion attempted".to_string())
    );
}

#[test]
fn decisions_wait_until_they_are_shown() {
    let mut events = Events::new();
    let mut decisions = Decisions::new();
    let s = begin(DispatchMode::Exec, "@codex-dev impl", Some(7)).0;
    assert_eq!(decisions.insert_decision(1, &s.event, &s.decision, "t"), Ok(1));
    assert_eq!(decisions.insert_decision(1, &s.event, &s.decision, "t"), Ok(2));
    assert_eq!(events.insert_event(s.event, "t"), Ok(Some(1)));
    assert_eq!(decisions.queue_depth(), 2);
    decisions.update_decision_comment_status(2, true, Some("late".to_string()));
    assert!(!decisions.rows[0].comment_posted);
    assert_eq!(decisions.rows[1].comment_error, Some("late".to_string()));
    let beat = heartbeat_once(&events, &decisions);
    assert_eq!((beat.queue_depth, beat.events_total, beat.decisions_total), (1, 1, 2));
    assert_eq!(beat.last_delivery_id, Some("d1".to_string()));
    assert_eq!(heartbeat_once(&Events::new(), &decisions).last_delivery_id, None);
}

#[test]
fn cursors_read_back() {
    let mut cursors = Cursors::new();
    assert_eq!(cursors.issue_role_cursor_event_id("main/a", 7, "codex-dev"), Ok(None));
    assert!(cursors.upsert_issue_role_cursor_event_id("main/a", 7, "codex-dev", 3, "t").is_ok());
    assert!(cursors.upsert_issue_role_cursor_event_id("main/a", 8, "codex-dev", 4, "t").is_ok());
    assert!(cursors.upsert_issue_role_cursor_event_id("main/a", 7, "codex-dev", 9, "u").is_ok());
    assert_eq!(cursors.issue_role_cursor_event_id("main/a", 7, "codex-dev"), Ok(Some(9)));
    assert_eq!(cursors.issue_role_cursor_event_id("main/a", 8, "codex-dev"), Ok(Some(4)));
    assert_eq!(cursors.rows.len(), 2);
    assert!(cursors.issue_role_cursor_event_id("main/a", u64::MAX, "codex-dev").is_err());
}

#[test]
fn first_sights_stay() {
    let mut repos = Repos::new();
    repos.update_repo_local_path("main/a", "/p", "t0");
    assert_eq!(repos.rows.len(), 0);
    repos.upsert_repo_seen("main/a", "t1");
    repos.upsert_repo_seen("main/a", "t2");
    assert_eq!(repos.repo_labels_ensured_at("main/a"), None);
    repos.update_repo_labels_ensured("main/a", false, Some("e".to_string()), "t3");
    assert_eq!(repos.repo_labels_ensured_at("main/a"), None);
    assert_eq!(repos.rows[0].last_error, Some("e".to_string()));
    repos.update_repo_labels_ensured("main/a", true, None, "t4");
    repos.update_repo_local_path("main/a", "/p", "t5");
    assert_eq!(repos.repo_labels_ensured_at("main/a"), Some("t4".to_string()));
    assert_eq!(repos.rows.len(), 1);
    let row = &repos.rows[0];
    assert_eq!((row.first_seen_at.as_str(), row.last_seen_at.as_str()), ("t1", "t5"));
    assert_eq!(row.local_path, Some("/p".to_string()));
}

#[test]
fn events_without_a_kind_are_unknown() {
    assert_eq!(event_type_of(&Some("push".to_string())), "push");
    assert_eq!(event_type_of(&None), "unknown");
}
