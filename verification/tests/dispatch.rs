use orchd::backend::{exe_candidates, resolve_orchd_exe_from, strip_linux_deleted_suffix, systemd_failure, systemd_launch};
use orchd::dispatching::{begin_dispatch_issue, dispatch_issue, IssueAction, IssuePhase};
use orchd::errors::DispatchError;
use orchd::healing::{
    is_stale_starting_dispatch, DispatchBackendKind, InflightDispatch, Staleness,
    STARTING_DISPATCH_STALE_AFTER_SEC,
};
use orchd::lexicon::DIRECTIVE_INVESTIGATE;
use orchd::runner::{codex_sandbox_for_directive, CodexSandbox, CodexSessionId};
use orchd::template::render_prompt;
use orchd::types::DispatchState;

const NOW: i64 = 1_700_000_000;

fn inflight_dispatch(status: DispatchState, started_at: &str) -> InflightDispatch {
    InflightDispatch {
        id: 1,
        repo_full_name: "main/orchd-debug".to_string(),
        issue_number: 1,
        status,
        started_at: started_at.to_string(),
        backend_kind: Some(DispatchBackendKind::Systemd),
        backend_ref: Some("orchd-dispatch-1.service".to_string()),
        lock_path: None,
    }
}

fn seconds_ago(seconds: i64) -> String {
    let time = chrono::DateTime::from_timestamp(NOW - seconds, 0).unwrap();
    time.to_rfc3339()
}

#[test]
fn dispatch_starting_dispatch_is_not_stale_within_grace_period() {
    let dispatch = inflight_dispatch(DispatchState::Starting, &seconds_ago(5));
    assert!(matches!(is_stale_starting_dispatch(&dispatch, NOW, 0), Staleness::Live));
}

#[test]
fn dispatch_starting_dispatch_with_invalid_timestamp_is_stale() {
    let dispatch = inflight_dispatch(DispatchState::Starting, "invalid-timestamp");
    assert!(matches!(is_stale_starting_dispatch(&dispatch, NOW, 0), Staleness::Stale));
}

#[test]
fn starting_dispatch_without_backend_ref_is_stale_after_grace_period() {
    let started_at = seconds_ago(STARTING_DISPATCH_STALE_AFTER_SEC + 5);
    let mut dispatch = inflight_dispatch(DispatchState::Starting, &started_at);
    dispatch.backend_ref = None;
    assert!(matches!(is_stale_starting_dispatch(&dispatch, NOW, 0), Staleness::Stale));
}

#[test]
fn starting_dispatches_with_a_backend_are_probed_after_the_grace_period() {
    let late = inflight_dispatch(
        DispatchState::Starting,
        &seconds_ago(STARTING_DISPATCH_STALE_AFTER_SEC),
    );
    assert!(matches!(is_stale_starting_dispatch(&late, NOW, 0), Staleness::Probe));
    let fresh = inflight_dispatch(
        DispatchState::Starting,
        &seconds_ago(STARTING_DISPATCH_STALE_AFTER_SEC - 1),
    );
    assert!(matches!(is_stale_starting_dispatch(&fresh, NOW, 0), Staleness::Live));
    let east = inflight_dispatch(DispatchState::Starting, "2023-11-15T00:13:15+02:00");
    assert!(matches!(is_stale_starting_dispatch(&east, NOW, 0), Staleness::Live));
}

#[test]
fn resolve_orchd_exe_strips_deleted_suffix_when_stripped_path_exists() {
    let places = exe_candidates(&Some("/opt/x/orchd (deleted)".to_string()), &None, &vec![]);
    assert_eq!(places, vec!["/opt/x/orchd (deleted)".to_string(), "/opt/x/orchd".to_string()]);
    let resolved = resolve_orchd_exe_from(&places, &vec![false, true]);
    assert_eq!(resolved, Ok("/opt/x/orchd".to_string()));
}

#[test]
fn resolve_orchd_exe_searches_path_for_bare_argv0() {
    let places = exe_candidates(&None, &Some("orchd".to_string()), &vec!["/opt/x".to_string()]);
    assert_eq!(places, vec!["orchd".to_string(), "/opt/x/orchd".to_string()]);
    let resolved = resolve_orchd_exe_from(&places, &vec![false, true]);
    assert_eq!(resolved, Ok("/opt/x/orchd".to_string()));
}

#[test]
fn programs_called_by_a_path_are_not_searched_for() {
    let places = exe_candidates(&None, &Some("./orchd".to_string()), &vec!["/opt/x".to_string()]);
    assert_eq!(places, vec!["./orchd".to_string()]);
    assert_eq!(
        resolve_orchd_exe_from(&places, &vec![false]),
        Err("unable to resolve orchd executable path".to_string())
    );
    assert_eq!(strip_linux_deleted_suffix("/opt/x/orchd"), None);
}

#[test]
fn runs_are_launched_as_units() {
    let (args, handle) = systemd_launch(7, "/opt/x/orchd", "/run/7/spec.json");
    assert_eq!(
        args,
        vec![
            "--user",
            "--collect",
            "--unit",
            "orchd-dispatch-7",
            "/opt/x/orchd",
            "run-dispatch",
            "--spec",
            "/run/7/spec.json"
        ]
    );
    assert_eq!(handle.backend_ref, "orchd-dispatch-7.service");
    assert_eq!(
        systemd_failure("exit status: 1", "\n", " no bus \n"),
        "systemd-run exited with status exit status: 1\nstderr:\nno bus"
    );
}

#[test]
fn failed_launches_fail_the_start() {
    let (phase, action) = begin_dispatch_issue(true);
    assert!(matches!(action, IssueAction::Plan));
    let (phase, action) = dispatch_issue(phase, None);
    assert!(matches!(action, IssueAction::Materialize));
    let (phase, action) = dispatch_issue(phase, None);
    assert!(matches!(action, IssueAction::Launch));
    let (phase, action) = dispatch_issue(phase, Some(DispatchError::Io("no bus".to_string())));
    assert_eq!(phase, IssuePhase::Over);
    assert!(matches!(action, IssueAction::End { fail_start: true, error: Some(DispatchError::Io(_)) }));

    let (phase, action) = begin_dispatch_issue(false);
    assert_eq!(phase, IssuePhase::Over);
    assert!(matches!(
        action,
        IssueAction::End { fail_start: false, error: Some(DispatchError::ConfigNotLoaded) }
    ));
}

#[test]
fn render_prompt_allows_brace_literals_in_injected_values() {
    let rendered = render_prompt(
        "{{issue_md}}",
        &[("issue_md", "observed literal {{role_card_md}} in issue text")],
    );
    match rendered {
        Ok(text) => assert_eq!(text, "observed literal {{role_card_md}} in issue text"),
        Err(_) => panic!("expected literal braces in injected values to be preserved"),
    }
}

#[test]
fn render_prompt_rejects_missing_template_values() {
    let rendered = render_prompt("{{missing_key}}", &[]);
    assert!(matches!(rendered, Err(DispatchError::PromptTemplate(_))));
}

#[test]
fn investigate_runs_read_only() {
    let sandbox = codex_sandbox_for_directive(DIRECTIVE_INVESTIGATE);
    assert!(matches!(sandbox, CodexSandbox::ReadOnly));
}

#[test]
fn codex_session_id_rejects_non_uuid() {
    assert!(CodexSessionId::parse("").is_err());
    assert!(CodexSessionId::parse("not-a-uuid").is_err());
}

#[test]
fn codex_session_id_accepts_uuid() {
    let value = "00000000-0000-0000-0000-000000000000";
    assert!(CodexSessionId::parse(value).is_ok());
}
