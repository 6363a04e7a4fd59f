use orchd::config_load::DispatchNotificationPhase;
use orchd::finalize::DispatchEventKind;
use orchd::healing::{is_stale_starting_dispatch, DispatchBackendKind, InflightDispatch, Staleness};
use orchd::history::{
    issue_delta_rows, limited_delta_rows, queued_impl_decisions, DeltaRow, StoredDecision,
    StoredEvent,
};
use orchd::ledger::{
    reduce_dispatch_state, DispatchEnd, DispatchInsert, DispatchReservation, Ledger,
};
use orchd::notifier::{pending_dispatch_phase_notifications, phase_of};
use orchd::types::DispatchState;

const NOW: &str = "2024-01-01T00:00:00+00:00";

fn reserve(ledger: &mut Ledger, decision_id: i64, issue_number: u64, directive: &str) -> DispatchReservation {
    let insert = DispatchInsert {
        decision_id,
        repo_full_name: "main/orchd-debug".to_string(),
        issue_number,
        actor_login: Some("main".to_string()),
        directive: directive.to_string(),
        target_role: "codex-orch".to_string(),
        started_at: NOW.to_string(),
    };
    ledger.reserve_dispatch_starting(insert, NOW).expect("reserve dispatch")
}

fn started(reservation: DispatchReservation) -> i64 {
    match reservation {
        DispatchReservation::Started(id) => id,
        _ => panic!("expected reservation to start"),
    }
}

fn event_kinds(ledger: &Ledger, id: i64) -> Vec<&'static str> {
    ledger
        .events
        .iter()
        .filter(|e| e.dispatch_id == id)
        .map(|e| e.event_kind.as_db_str())
        .collect()
}

fn second_for_issue_is_blocked() {
    let mut ledger = Ledger::new();
    let first_id = started(reserve(&mut ledger, 1, 7, "poke"));
    assert_eq!(event_kinds(&ledger, first_id), vec!["mark_starting"]);
    let second = reserve(&mut ledger, 2, 7, "poke");
    assert_eq!(second, DispatchReservation::InFlightIssue(first_id));
}

fn second_impl_for_repo_is_blocked() {
    let mut ledger = Ledger::new();
    let first_id = started(reserve(&mut ledger, 1, 7, "impl"));
    let second = reserve(&mut ledger, 2, 8, "impl");
    assert_eq!(second, DispatchReservation::InFlightRepo(first_id));
}

fn autoheal_is_recorded() {
    let mut ledger = Ledger::new();
    let id = started(reserve(&mut ledger, 1, 9, "poke"));
    ledger
        .mark_dispatch_failed_runtime(id, "stale_dispatch_autohealed", "stale dispatch test", NOW)
        .expect("autoheal should succeed");
    assert_eq!(event_kinds(&ledger, id), vec!["mark_starting", "heal_stale"]);
    assert_eq!(ledger.rows[0].status, DispatchState::FailedRuntime.as_db_str());
}

#[test]
fn db_reserve_dispatch_blocks_second_inflight_for_issue() {
    second_for_issue_is_blocked();
}

#[test]
fn legacy_reserve_dispatch_blocks_second_inflight_for_issue() {
    second_for_issue_is_blocked();
}

#[test]
fn db_reserve_dispatch_blocks_second_inflight_impl_for_repo() {
    second_impl_for_repo_is_blocked();
}

#[test]
fn legacy_reserve_dispatch_blocks_second_inflight_impl_for_repo() {
    second_impl_for_repo_is_blocked();
}

#[test]
fn db_stale_autoheal_records_heal_event() {
    autoheal_is_recorded();
}

#[test]
fn legacy_stale_autoheal_records_heal_event() {
    autoheal_is_recorded();
}

#[test]
fn other_directives_share_a_repository() {
    let mut ledger = Ledger::new();
    let a = started(reserve(&mut ledger, 1, 7, "impl"));
    let b = started(reserve(&mut ledger, 2, 8, "reply"));
    assert_eq!((a, b), (1, 2));
    assert_eq!(ledger.latest_repo_inflight_impl_dispatch_id("main/orchd-debug"), Some(a));
    assert_eq!(ledger.latest_issue_inflight("main/orchd-debug", 8), Some(b));
    assert_eq!(ledger.latest_issue_inflight("main/other", 8), None);
}

#[test]
fn issue_numbers_beyond_the_store_are_refused() {
    let mut ledger = Ledger::new();
    let insert = DispatchInsert {
        decision_id: 1,
        repo_full_name: "main/orchd-debug".to_string(),
        issue_number: u64::MAX,
        actor_login: None,
        directive: "reply".to_string(),
        target_role: "codex-orch".to_string(),
        started_at: NOW.to_string(),
    };
    assert_eq!(
        ledger.reserve_dispatch_starting(insert, NOW),
        Err("out of range integral type conversion attempted".to_string())
    );
    assert!(ledger.rows.is_empty());
}

#[test]
fn dispatches_run_and_end() {
    let mut ledger = Ledger::new();
    let id = started(reserve(&mut ledger, 1, 7, "impl"));
    ledger
        .update_dispatch_running(id, "systemd", "orchd-dispatch-1.service", "/run/1", "/lock/1", NOW)
        .expect("running");
    let mut odd = Ledger::new();
    started(reserve(&mut odd, 1, 7, "impl"));
    odd.rows[0].issue_number = -1;
    assert_eq!(
        odd.list_inflight_dispatches().map(|list| list.len()),
        Err("Conversion error from type Integer at index: 2, invalid issue number in db: -1".to_string())
    );
    let open = ledger.list_inflight_dispatches().expect("list");
    assert_eq!(open.len(), 1);
    assert!(matches!(open[0].status, DispatchState::Running));
    assert_eq!(open[0].backend_kind, Some(DispatchBackendKind::Systemd));
    assert_eq!(open[0].lock_path.as_deref(), Some("/lock/1"));

    let end = DispatchEnd {
        event_kind: DispatchEventKind::Complete,
        reason_code: "ok".to_string(),
        exit_code: 0,
        session_id: Some("00000000-0000-0000-0000-000000000001".to_string()),
    };
    assert_eq!(ledger.update_dispatch_terminal(id, end, NOW), Ok(true));
    let again = DispatchEnd {
        event_kind: DispatchEventKind::Timeout,
        reason_code: "late".to_string(),
        exit_code: 1,
        session_id: None,
    };
    assert_eq!(ledger.update_dispatch_terminal(id, again, NOW), Ok(false));
    assert_eq!(ledger.rows[0].status, "completed");
    assert_eq!(
        ledger.latest_issue_codex_session_id("main/orchd-debug", 7),
        Ok(Some("00000000-0000-0000-0000-000000000001".to_string()))
    );
    assert_eq!(event_kinds(&ledger, id), vec!["mark_starting", "mark_running", "complete"]);
    assert_eq!(started(reserve(&mut ledger, 2, 7, "impl")), 2);
}

#[test]
fn changes_that_a_state_does_not_admit_are_refused() {
    let mut ledger = Ledger::new();
    assert_eq!(
        ledger.update_dispatch_failed_start(3, "r", "e", NOW),
        Err("dispatch 3 not found".to_string())
    );
    assert_eq!(ledger.mark_dispatch_failed_runtime(3, "r", "e", NOW), Ok(()));
    let id = started(reserve(&mut ledger, 1, 7, "impl"));
    ledger.update_dispatch_failed_start(id, "launch_failed", "no bus", NOW).expect("failed start");
    assert_eq!(ledger.rows[0].status, "failed_start");
    assert_eq!(ledger.rows[0].error_text.as_deref(), Some("no bus"));
    let refused = ledger.update_dispatch_running(id, "local", "1", "/run", "/lock", NOW);
    assert_eq!(
        refused,
        Err("dispatch 1 transition rejected: event mark_running not allowed in state failed_start".to_string())
    );
    ledger.rows[0].status = "odd".to_string();
    assert_eq!(
        ledger.mark_dispatch_failed_runtime(id, "r", "e", NOW),
        Err("dispatch 1 has unknown status literal 'odd'".to_string())
    );
    assert!(reduce_dispatch_state(DispatchState::Running, DispatchEventKind::FailStart).is_err());
    assert!(matches!(
        reduce_dispatch_state(DispatchState::Starting, DispatchEventKind::HealStale),
        Ok(DispatchState::FailedRuntime)
    ));
}

fn legacy_inflight(started_at: &str) -> InflightDispatch {
    InflightDispatch {
        id: 1,
        repo_full_name: "main/orchd-debug".to_string(),
        issue_number: 1,
        status: DispatchState::Starting,
        started_at: started_at.to_string(),
        backend_kind: DispatchBackendKind::parse_db("tmux"),
        backend_ref: Some("codex-orch:rmain-orchd-debug-i1".to_string()),
        lock_path: None,
    }
}

const CLOCK: i64 = 1_700_000_000;

fn ago(seconds: i64) -> String {
    chrono::DateTime::from_timestamp(CLOCK - seconds, 0).unwrap().to_rfc3339()
}

#[test]
fn legacy_starting_dispatch_is_not_stale_within_grace_period() {
    let dispatch = legacy_inflight(&ago(5));
    assert!(matches!(is_stale_starting_dispatch(&dispatch, CLOCK, 0), Staleness::Live));
}

#[test]
fn legacy_starting_dispatch_with_invalid_timestamp_is_stale() {
    let dispatch = legacy_inflight("invalid-timestamp");
    assert!(matches!(is_stale_starting_dispatch(&dispatch, CLOCK, 0), Staleness::Stale));
}

#[test]
fn starting_dispatch_without_tmux_session_is_stale_after_grace_period() {
    let dispatch = legacy_inflight(&ago(125));
    assert!(matches!(is_stale_starting_dispatch(&dispatch, CLOCK, 0), Staleness::Stale));
}

fn event(id: i64, text: Option<&str>) -> StoredEvent {
    StoredEvent {
        id,
        repo_full_name: "main/a".to_string(),
        issue_number: Some(4),
        row: DeltaRow {
            event_type: "issue_comment".to_string(),
            actor_login: None,
            event_text: text.map(str::to_string),
            received_at: format!("t{id}"),
            source_created_at: None,
        },
    }
}

#[test]
fn news_are_what_was_said_since_the_last_dispatch() {
    let events = vec![event(1, Some("a")), event(2, Some("b")), event(3, Some("")), event(4, None), event(5, Some("e")), event(6, Some("f"))];
    let rows = issue_delta_rows(&events, "main/a", 4, Some(1), 5).expect("rows");
    let said: Vec<_> = rows.iter().map(|r| r.received_at.as_str()).collect();
    assert_eq!(said, vec!["t2", "t5"]);
    assert_eq!(issue_delta_rows(&events, "main/b", 4, None, 6).expect("rows").len(), 0);
    let many: Vec<_> = (1..=250).map(|n| event(n, Some("x"))).collect();
    assert_eq!(issue_delta_rows(&many, "main/a", 4, None, 250).expect("rows").len(), 200);
    assert!(issue_delta_rows(&events, "main/a", u64::MAX, None, 6).is_err());
    assert_eq!(limited_delta_rows(&many, "main/a", 4, None, 250, 3).expect("rows").len(), 3);
    assert_eq!(limited_delta_rows(&many, "main/a", 4, None, 210, 500).expect("rows").len(), 210);
}

fn decision(id: i64, issue: i64, role: &str, directive: &str) -> StoredDecision {
    StoredDecision {
        id,
        event_id: id + 100,
        repo_full_name: "main/a".to_string(),
        issue_number: Some(issue),
        directive: Some(directive.to_string()),
        target_role: Some(role.to_string()),
        would_dispatch: true,
    }
}

#[test]
fn only_the_newest_decision_of_a_matter_waits() {
    let all = vec![
        decision(1, 4, "codex-dev", "impl"),
        decision(2, 4, "codex-lead", "impl"),
        decision(3, 4, "codex-dev", "impl"),
        decision(4, 5, "codex-dev", "reply"),
        decision(5, 6, "codex-dev", "impl"),
    ];
    let known = vec![101, 102, 103, 104, 105];
    let queue = |dispatched: Vec<i64>, limit| queued_impl_decisions(&all, &known, &dispatched, limit);
    assert_eq!(queue(vec![], 10), vec![(2, 102), (3, 103), (5, 105)]);
    assert_eq!(queue(vec![3], 10), vec![(2, 102), (5, 105)]);
    assert_eq!(queue(vec![], 1), vec![(2, 102)]);
    let unknown = vec![101, 103, 105];
    assert_eq!(queued_impl_decisions(&all, &unknown, &vec![], 1), vec![(3, 103)]);
    let mixed: Vec<StoredDecision> = all.into_iter().rev().collect();
    assert_eq!(
        queued_impl_decisions(&mixed, &known, &vec![], 10),
        vec![(2, 102), (3, 103), (5, 105)]
    );
}

fn ended_with_session(ledger: &mut Ledger, decision_id: i64, session: &str) -> i64 {
    let id = started(reserve(ledger, decision_id, 7, "poke"));
    ledger.update_dispatch_running(id, "local", "1", "/run", "/lock", NOW).expect("running");
    let end = DispatchEnd {
        event_kind: DispatchEventKind::Complete,
        reason_code: "completed".to_string(),
        exit_code: 0,
        session_id: Some(session.to_string()),
    };
    assert!(ledger.update_dispatch_terminal(id, end, NOW).expect("terminal"));
    id
}

#[test]
fn sessions_come_newest_first() {
    let mut ledger = Ledger::new();
    let first = ended_with_session(&mut ledger, 1, "one");
    let second = ended_with_session(&mut ledger, 2, "two");
    let repo = "main/orchd-debug";
    let all = ledger.list_issue_resume_dispatches(repo, 7, &None).expect("sessions");
    assert_eq!(all.iter().map(|d| d.id).collect::<Vec<_>>(), vec![second, first]);
    assert_eq!(all[0].codex_session_id.as_deref(), Some("two"));
    assert!(all[0].status == DispatchState::Completed);
    let other = Some("codex-dev".to_string());
    assert!(ledger.list_issue_resume_dispatches(repo, 7, &other).expect("sessions").is_empty());
    assert!(ledger.list_issue_resume_dispatches(repo, 8, &None).expect("sessions").is_empty());
    let found = ledger.latest_issue_role_codex_session_id(repo, 7, "codex-orch");
    assert_eq!(found, Ok(Some("two".to_string())));
    assert_eq!(ledger.latest_issue_role_codex_session_id(repo, 7, "codex-dev"), Ok(None));
    assert!(ledger.latest_issue_role_codex_session_id(repo, u64::MAX, "codex-dev").is_err());
    ledger.rows[1].status = "lost".to_string();
    let lost = ledger.list_issue_resume_dispatches(repo, 7, &None).map(|list| list.len());
    assert_eq!(lost, Err("unknown dispatch status: lost".to_string()));
}

#[test]
fn phases_are_due_until_they_are_told() {
    let mut ledger = Ledger::new();
    let first = ended_with_session(&mut ledger, 1, "one");
    let second = ended_with_session(&mut ledger, 2, "two");
    let phases = vec![DispatchNotificationPhase::Completed];
    let due = pending_dispatch_phase_notifications(&ledger, &phases, 0, &Vec::new());
    assert_eq!(due.iter().map(|n| n.dispatch_id).collect::<Vec<_>>(), vec![first, second]);
    assert_eq!(due[0].dedupe_key, format!("dispatch:{first}:completed"));
    let told = vec![due[0].dedupe_key.clone()];
    let rest = pending_dispatch_phase_notifications(&ledger, &phases, 0, &told);
    assert_eq!(rest.len(), 1);
    assert_eq!(rest[0].dispatch_id, second);
    assert!(pending_dispatch_phase_notifications(&ledger, &phases, second, &told).is_empty());
    let failures = vec![DispatchNotificationPhase::Failed];
    assert!(pending_dispatch_phase_notifications(&ledger, &failures, 0, &told).is_empty());
    assert!(phase_of(DispatchState::Starting).is_none());
    assert!(phase_of(DispatchState::TimedOut) == Some(DispatchNotificationPhase::Failed));
}
