use orchd::ledger::{DispatchInsert, DispatchReservation, Ledger};
use orchd::finalize::{
    after_recording, append_completion_section, finalize_dispatch_command, finalize_targets,
    maybe_post_landing_comment, parse_context_remaining_pct, parse_reported_status,
    record_finalization, sidecar_settles, terminal_spec_from_outcome, DispatchEventKind,
    FinalizeDispatchArgs, ReportedStatus,
};
use orchd::landing::{LandingComment, LandingEnd};
use orchd::runner::{
    codex_status_for_exit_code, extract_session_id_from_codex_log, finalize_retry,
    finalize_with_retries, find_session_id_from_newer_sessions, latest_session_file,
    run_codex_once, session_file_ends_in_characters, write_completion, write_summary, CodexRunMode,
    CodexSandbox, CodexSessionId, DispatchExecSpecV1,
};
use orchd::running::{begin_run, run_dispatch_command, RunAction, RunReply, RunStep};
use orchd::service::{create_pull_request_for_dispatch, pull_request_url};
use orchd::types::{DispatchState, OrchdRuntimeState};

const ID: &str = "0199a213-81c0-7800-8aa1-bbab2a035a53";

fn s(t: &str) -> String {
    t.to_string()
}

fn id() -> CodexSessionId {
    match CodexSessionId::parse(ID) {
        Ok(x) => x,
        Err(e) => panic!("{e}"),
    }
}

fn spec() -> DispatchExecSpecV1 {
    DispatchExecSpecV1 {
        version: 1,
        dispatch_id: 5,
        db_path: s("/db/o"),
        lock_path: s("/lock"),
        run_dir: s("/run"),
        prompt_path: s("/run/prompt.md"),
        summary_path: s("/run/summary.md"),
        completion_path: s("/run/completion.md"),
        last_message_path: s("/run/last.md"),
        codex_log_path: s("/run/codex.log"),
        marker_path: s("/run/marker"),
        issue_ref: s("main/a#7"),
        issue_title: s("Fix"),
        issue_url: s("u"),
        forgejoctl_bin: s("/bin/f"),
        forgejo_config_file: None,
        token_file: s("/t"),
        control_token_file: Some(s("/ct")),
        workdir: s("/w"),
        principal_workdir: None,
        sidecar: None,
        codex_sandbox: CodexSandbox::WorkspaceWrite,
        git_remote: s("origin"),
        git_base: s("main"),
        git_branch: s("b"),
        codex_bin: s("/bin/codex"),
        codex_role_arg: s("dev"),
        codex_profile: None,
        issue_session_id: Some(id()),
        directive: s("impl"),
        role_name: s("codex-dev"),
        timeout_sec: 60,
    }
}

#[test]
fn the_model_is_run_with_a_timeout() {
    let args = run_codex_once(&spec(), CodexRunMode::Fresh);
    assert_eq!(&args[..3], &["60", "/bin/codex", "dev"]);
    assert_eq!(args.last(), Some(&s("-")));
    let place = args.iter().position(|a| a == "--sandbox").expect("a sandbox is set");
    assert_eq!(args[place + 1], "workspace-write");
    let args = run_codex_once(&spec(), CodexRunMode::Resume);
    assert_eq!(&args[args.len() - 3..], &["resume", ID, "-"]);
}

#[test]
fn exits_become_statuses() {
    assert!(codex_status_for_exit_code(0) == ReportedStatus::Completed);
    assert!(codex_status_for_exit_code(124) == ReportedStatus::TimedOut);
    assert!(codex_status_for_exit_code(1) == ReportedStatus::FailedRuntime);
    assert!(matches!(parse_reported_status("timed_out"), Ok(ReportedStatus::TimedOut)));
    assert!(matches!(parse_reported_status("stopped_no_final_answer"), Ok(ReportedStatus::FailedRuntime)));
    assert_eq!(ReportedStatus::FailedRuntime.reason_code(), "codex_exit_nonzero");
    assert_eq!(ReportedStatus::TimedOut.status_str(), "timed_out");
    match parse_reported_status("odd") {
        Ok(_) => panic!("no such status"),
        Err(e) => assert_eq!(e, "unsupported finalize status 'odd'"),
    }
}

#[test]
fn sessions_are_found() {
    let log = format!("x\nsession id: bad\nsession id: {ID}\nsession id: bad\n");
    assert_eq!(extract_session_id_from_codex_log(&log).map(|x| x.0), Some(s(ID)));
    assert!(extract_session_id_from_codex_log("none").is_none());
    let paths = vec![s("/s/2/a.jsonl"), s("/s/10/b.jsonl"), s("/s/3/c.jsonl")];
    assert_eq!(latest_session_file(&paths), Some(s("/s/3/c.jsonl")));
    assert_eq!(latest_session_file(&vec![]), None);
    let name = format!("rollout-{ID}.jsonl");
    assert!(session_file_ends_in_characters(&name));
    match find_session_id_from_newer_sessions(&name) {
        Ok(Some(x)) => assert_eq!(x.0, ID),
        _ => panic!("the name holds a session"),
    }
    assert!(matches!(find_session_id_from_newer_sessions("a.txt"), Ok(None)));
    assert!(matches!(find_session_id_from_newer_sessions("short.jsonl"), Ok(None)));
    assert!(find_session_id_from_newer_sessions(&format!("{}.jsonl", "z".repeat(36))).is_err());
}

#[test]
fn runs_are_written_down() {
    assert_eq!(write_summary(&None), "(no final assistant message)\n");
    assert_eq!(write_summary(&Some(String::new())), "(no final assistant message)\n");
    assert_eq!(write_summary(&Some(s("a\nb"))), "a\nb\n");
    assert_eq!(write_summary(&Some("x\n".repeat(130))), "x\n".repeat(120));
    assert_eq!(
        write_completion(&spec(), ReportedStatus::TimedOut, &None, "sum\n"),
        "orchd: dispatch completed id=5 status=timed_out reason=timeout\ndirective=impl role=codex-dev\ncodex_session_id=unknown\nrun_dir=/run\nlog=/run/codex.log\n\n```markdown\nsum\n```\n"
    );
    assert_eq!(
        finalize_retry(3, "e"),
        (Some(6), s("orchd: finalize-dispatch attempt 3 failed; retrying in 6s: e"))
    );
    assert_eq!(
        finalize_retry(8, "e"),
        (None, s("orchd: finalize-dispatch failed after 8 attempts: e"))
    );
}

fn args() -> FinalizeDispatchArgs {
    match finalize_with_retries(&spec(), ReportedStatus::Completed, 0, &Some(id())) {
        Ok(a) => a,
        Err(e) => panic!("{e}"),
    }
}

#[test]
fn runs_are_finalized_by_the_control_plane() {
    let a = args();
    assert_eq!(a.token_file, "/ct");
    assert_eq!(a.status, "completed");
    assert_eq!(a.session_id, ID);
    assert_eq!(a.issue_ref.number, 7);
    let mut plain = spec();
    plain.control_token_file = None;
    match finalize_with_retries(&plain, ReportedStatus::TimedOut, 124, &None) {
        Ok(a) => {
            assert_eq!(a.token_file, "/t");
            assert_eq!((a.reason_code.as_str(), a.exit_code, a.session_id.as_str()), ("timeout", 124, ""));
        }
        Err(e) => panic!("{e}"),
    }
    plain.issue_ref = s("bad");
    assert!(finalize_with_retries(&plain, ReportedStatus::TimedOut, 124, &None).is_err());
}

fn walk(session: Option<CodexSessionId>, replies: Vec<RunReply<String, CodexSessionId>>) -> RunStep {
    let mut at = begin_run("/lock", session);
    for r in replies {
        at = run_dispatch_command(at.0, r);
    }
    at
}

#[test]
fn sessions_are_resumed_first() {
    let step = walk(Some(id()), vec![RunReply::Done, RunReply::Done]);
    assert!(matches!(step.1, RunAction::Run(CodexRunMode::Resume)));
    let step = walk(Some(id()), vec![RunReply::Done, RunReply::Done, RunReply::Exit(124)]);
    assert!(matches!(step.1, RunAction::ReadLogSession));
    let step = walk(Some(id()), vec![RunReply::Done, RunReply::Done, RunReply::Exit(2)]);
    match &step.1 {
        RunAction::AppendLog(t) => assert_eq!(
            *t,
            format!("orchd: resume failed for issue session {ID}, falling back to fresh exec")
        ),
        _ => panic!("the log is told"),
    }
    let step = run_dispatch_command(step.0, RunReply::Done);
    assert!(matches!(step.1, RunAction::Run(CodexRunMode::Fresh)));
    let step = walk(None, vec![RunReply::Done, RunReply::Done]);
    assert!(matches!(step.1, RunAction::Run(CodexRunMode::Fresh)));
}

#[test]
fn finalized_runs_release_their_lock() {
    let until = |last: RunReply<String, CodexSessionId>| {
        walk(
            None,
            vec![
                RunReply::Done,
                RunReply::Done,
                RunReply::Exit(3),
                RunReply::Session(None),
                RunReply::Session(Some(id())),
                RunReply::Done,
                RunReply::Done,
                last,
            ],
        )
    };
    let step = until(RunReply::Failed(s("finalize")));
    assert!(matches!(&step.1, RunAction::RemoveLock(p) if p == "/lock"));
    assert_eq!(step.0.session.as_ref().map(|x| x.0.clone()), Some(s(ID)));
    let step = run_dispatch_command(step.0, RunReply::Failed(s("busy")));
    assert!(matches!(&step.1, RunAction::AppendLog(t) if t == "orchd: lock cleanup failed for /lock: busy"));
    let step = run_dispatch_command(step.0, RunReply::Done);
    assert!(matches!(step.1, RunAction::End(Some(e)) if e == "finalize"));
    let step = run_dispatch_command(until(RunReply::Done).0, RunReply::Done);
    assert!(matches!(step.1, RunAction::End(None)));
    let step = walk(None, vec![RunReply::Failed(s("no log"))]);
    assert!(matches!(step.1, RunAction::End(Some(e)) if e == "no log"));
}

#[test]
fn completions_get_their_sections() {
    assert_eq!(append_completion_section("h", &vec![]), "");
    assert_eq!(append_completion_section("h", &vec![s("a"), s("b")]), "\n---\nh:\n- a\n- b\n");
    assert_eq!(parse_context_remaining_pct("Context left: 40%\nx 12%\n"), Some(40));
    assert_eq!(parse_context_remaining_pct("context 300%\ncontext 7% of 50\n"), Some(50));
    assert_eq!(parse_context_remaining_pct("context 300%"), None);
    assert_eq!(
        maybe_post_landing_comment(true, "main/a#7", "b"),
        Some(vec![s("issue"), s("comment"), s("main/a#7"), s("--body"), s("b")])
    );
    assert_eq!(maybe_post_landing_comment(false, "main/a#7", "b"), None);
}

#[test]
fn landings_decide_how_work_ends() {
    let blocked = LandingEnd::Blocked {
        reason_code: s("worktree_dirty"),
        lines: vec![s("l")],
        comment: Some(LandingComment { delivery_kind: s("k"), dedupe_key: s("d"), body: s("b") }),
    };
    let t = terminal_spec_from_outcome(ReportedStatus::Completed, "completed", &blocked);
    assert!(t.event_kind == DispatchEventKind::Block);
    assert!(t.state_literal == DispatchState::Blocked);
    assert!(t.runtime_state == OrchdRuntimeState::Blocked);
    assert_eq!(t.reason_code, "worktree_dirty");
    assert!(sidecar_settles(&blocked));
    assert!(!sidecar_settles(&LandingEnd::Success(vec![])));
    let plan = finalize_dispatch_command(&args(), ReportedStatus::Completed, &None, &blocked);
    assert!(plan.status.state_literal == DispatchState::Blocked);
    assert_eq!(plan.comment.map(|c| c.dedupe_key), Some(s("d")));
    assert_eq!(plan.session_id, Some(s(ID)));
    let done = finalize_dispatch_command(
        &args(),
        ReportedStatus::Completed,
        &None,
        &LandingEnd::Success(vec![s("l")]),
    );
    assert!(done.status.event_kind == DispatchEventKind::Complete);
    assert!(done.comment.is_none());
    match finalize_targets(&args()) {
        Ok(t) => {
            assert!(t.reported == ReportedStatus::Completed);
            assert!(t.sidecar.is_none());
            assert_eq!(t.primary.map(|p| p.repo_name), Some(s("a")));
        }
        Err(e) => panic!("{e}"),
    }
}

#[test]
fn work_is_finalized_once() {
    let mut ledger = Ledger::new();
    let insert = DispatchInsert {
        decision_id: 1,
        repo_full_name: s("main/a"),
        issue_number: 7,
        actor_login: None,
        directive: s("impl"),
        target_role: s("codex-dev"),
        started_at: s("t0"),
    };
    let id = match ledger.reserve_dispatch_starting(insert, "t0") {
        Ok(DispatchReservation::Started(id)) => id,
        _ => panic!("nothing is under way"),
    };
    let mut a = args();
    a.dispatch_id = id;
    a.status = s("timed_out");
    a.session_id = s(" one ");
    let plan = |a: &FinalizeDispatchArgs| match finalize_targets(a) {
        Ok(t) => {
            assert!(t.sidecar.is_none() && t.primary.is_none());
            finalize_dispatch_command(a, t.reported, &None, &LandingEnd::NotRequired)
        }
        Err(e) => panic!("{e}"),
    };
    match record_finalization(&mut ledger, &a, plan(&a), "t1") {
        Ok(Some(p)) => {
            assert_eq!(p.session_id, Some(s(" one ")));
            assert_eq!(p.context_session, Some(s("one")));
            assert!(p.inquisition.is_some());
        }
        _ => panic!("the end is new"),
    }
    assert_eq!(ledger.rows[0].codex_session_id, Some(s(" one ")));
    assert_eq!(ledger.rows[0].status, "timed_out");
    let events = ledger.events.len();
    assert!(matches!(record_finalization(&mut ledger, &a, plan(&a), "t2"), Ok(None)));
    a.status = s("failed_runtime");
    assert!(matches!(record_finalization(&mut ledger, &a, plan(&a), "t2"), Ok(None)));
    assert_eq!(ledger.rows[0].ended_at, Some(s("t1")));
    assert_eq!(ledger.events.len(), events);
    a.session_id = s("  ");
    assert!(plan(&a).session_id.is_none() && plan(&a).context_session.is_none());
    assert!(after_recording(true, plan(&a)).is_some());
    assert!(after_recording(false, plan(&a)).is_none());
}

#[test]
fn work_gets_a_pull_request() {
    let said = |a: &FinalizeDispatchArgs| match create_pull_request_for_dispatch(a) {
        Ok(_) => panic!("expected an error"),
        Err(e) => e,
    };
    let mut a = args();
    assert_eq!(said(&a), "missing --forgejo-config; cannot create pull request");
    a.forgejo_config = Some(s("/c"));
    match create_pull_request_for_dispatch(&a) {
        Ok(p) => {
            assert_eq!((p.title.as_str(), p.base.as_str(), p.head.as_str()), ("Fix", "main", "b"));
            assert_eq!(p.owned_head, "main:b");
            assert_eq!(p.body, "Refs: u\n\nIssue: main/a#7\n");
        }
        Err(e) => panic!("{e}"),
    }
    a.git_base = s(" ");
    assert_eq!(said(&a), "missing base branch; cannot create pull request");
    a.git_branch = s("");
    assert_eq!(said(&a), "missing git branch; cannot create pull request");
    assert_eq!(pull_request_url(&Some(s("h")), &Some(s("u"))), "h");
    assert_eq!(pull_request_url(&None, &Some(s("u"))), "u");
    assert_eq!(
        pull_request_url(&Some(s("")), &Some(s("u"))),
        "(pull request created; URL missing in response)"
    );
}
