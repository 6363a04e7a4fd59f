use orchd::cli::{
    run_entry, DeployCommand, DispatchMode, EntryAction, IssueCommand, ObsCommand, OrchdCommand,
    PromptCommand, RoleCommand, ScheduleCommand, TimerCommand,
};
use orchd::config_load::DispatchNotificationPhase;
use orchd::defaults::default_notify_phases;
use orchd::fake_codex::{mode, parse_output_path, FakeMode};
use orchd::finalize::DispatchEventKind;
use orchd::issue::{
    ensure_repo_known, issue_resume_command, issue_session_summaries, normalized_role_filter, pad,
    resume_failure, run_codex_resume, session_line, validate_repo_name, IssueResumeDispatch,
};
use orchd::migrations::{
    migration_failure, migrations_verdict, name_of_migration, pending_migrations, schema_contract,
    schema_contract_text,
};
use orchd::notifier::{
    delivery_kind, dispatch_body, first_non_empty_line, notify_dispatch_phase, pastel_bgcolor,
    pastel_of_digest, replacement_id, reply_body, send_notification, thread_key, truncate_ellipsis,
    DispatchPhaseNotificationRow, PhaseNotice, ReplyNotificationRow,
};
use orchd::projection::{
    begin_showing, labels_read, project_issue_runtime_state, project_issue_runtime_state_as_role,
    replacement_label_ids, state_label_found, Identity, LabelSeen, ShowAction, Shown,
};
use orchd::reload::{DispatchConfigLive, DispatchConfigReloadError, ReloadStep, Reloaded};
use orchd::service::{
    autoland_to_main, dispatch_queue_step, needs_webhook, parse_terminal_status_spec, push_branch,
    queue_follow_up, webhook_url, worker_identity, works_queue_off, QueueFollowUp, QueueStep, RepoHook,
};
use orchd::types::{DispatchState, OrchdRuntimeState};

#[test]
fn commands_lead_to_their_actions() {
    assert_eq!(run_entry(None), EntryAction::Serve);
    assert_eq!(run_entry(Some(OrchdCommand::RunDispatch)), EntryAction::RunDispatch);
    assert_eq!(run_entry(Some(OrchdCommand::FinalizeDispatch)), EntryAction::FinalizeDispatch);
    assert_eq!(run_entry(Some(OrchdCommand::SchemaContract)), EntryAction::PrintSchemaContract);
    assert_eq!(
        run_entry(Some(OrchdCommand::Obs(ObsCommand::Prompt(PromptCommand::Preview)))),
        EntryAction::PreviewPrompt
    );
    assert_eq!(
        run_entry(Some(OrchdCommand::Obs(ObsCommand::Issue(IssueCommand::Resume)))),
        EntryAction::ResumeIssueSession
    );
    assert_eq!(
        run_entry(Some(OrchdCommand::Obs(ObsCommand::Timer(TimerCommand::Sessions)))),
        EntryAction::ListTimerSessions
    );
    assert_eq!(run_entry(Some(OrchdCommand::Role(RoleCommand::Add))), EntryAction::AddRole);
    assert_eq!(
        run_entry(Some(OrchdCommand::Schedule(ScheduleCommand::Tick))),
        EntryAction::TickSchedules
    );
    assert_eq!(
        run_entry(Some(OrchdCommand::Deploy(DeployCommand::Worker))),
        EntryAction::WorkOffDeploys
    );
}

#[test]
fn schema_contracts_are_printed() {
    assert_eq!(schema_contract(), (13, 1));
    assert_eq!(schema_contract_text(true), "{\"latest\":13,\"min_compatible\":1}");
    assert_eq!(schema_contract_text(false), "latest=13\nmin_compatible=1");
}

#[test]
fn missing_migrations_are_pending() {
    assert_eq!(pending_migrations(&vec![]).len(), 13);
    assert_eq!(pending_migrations(&vec![1, 2, 3, 4, 6, 7, 8, 9, 10, 11, 12, 13]), vec![5]);
    assert_eq!(name_of_migration(7), "canonicalize_poke_directive_to_reply");
    assert_eq!(
        migration_failure(12),
        "failed applying migration 12 (add_deploy_jobs_table)"
    );
    assert!(migrations_verdict(13).is_ok());
    assert_eq!(
        migrations_verdict(14),
        Err("migration runner ended at version 14, expected 13".to_string())
    );
}

#[test]
fn output_paths_follow_their_flag() {
    let args = |v: &[&str]| v.iter().map(|s| s.to_string()).collect::<Vec<_>>();
    assert_eq!(parse_output_path(&args(&["x", "-o", "out"])), Some("out".to_string()));
    assert_eq!(parse_output_path(&args(&["-o", "-o", "out"])), Some("-o".to_string()));
    assert_eq!(parse_output_path(&args(&["x", "-o"])), None);
    assert_eq!(mode(&None), FakeMode::Success);
    assert_eq!(mode(&Some("NonZero".to_string())), FakeMode::Nonzero);
    assert_eq!(mode(&Some("timeout".to_string())), FakeMode::Timeout);
    assert_eq!(mode(&Some("no_output".to_string())), FakeMode::NoOutput);
    assert_eq!(FakeMode::Nonzero.exit_code(), 7);
    assert_eq!(FakeMode::NoOutput.exit_code(), 0);
}

#[test]
fn webhooks_report_to_the_service() {
    assert_eq!(webhook_url("0.0.0.0", true, 7878), "http://127.0.0.1:7878/webhook");
    assert_eq!(webhook_url("10.0.0.2", false, 80), "http://10.0.0.2:80/webhook");
    let hook = |config: Option<&str>, url: Option<&str>, active: Option<bool>| RepoHook {
        config_url: config.map(str::to_string),
        url: url.map(str::to_string),
        active,
    };
    assert!(needs_webhook(&vec![], "http://h"));
    assert!(!needs_webhook(&vec![hook(Some("http://h"), None, None)], "http://h"));
    assert!(!needs_webhook(&vec![hook(None, Some("http://h"), Some(true))], "http://h"));
    assert!(needs_webhook(&vec![hook(Some("http://h"), None, Some(false))], "http://h"));
    assert!(needs_webhook(&vec![hook(Some("http://i"), Some("http://h"), None)], "http://h"));
}

#[test]
fn queued_decisions_wait_for_their_repository() {
    assert_eq!(dispatch_queue_step(Some(3), Some(1)), QueueStep::RepoBusy(3));
    assert_eq!(dispatch_queue_step(None, Some(1)), QueueStep::Dispatch(1));
    assert_eq!(dispatch_queue_step(None, None), QueueStep::NoIssue);
}

#[test]
fn queued_work_is_followed_up() {
    assert!(works_queue_off(DispatchMode::Exec));
    assert!(!works_queue_off(DispatchMode::DryRun));
    match queue_follow_up(true, &Some("impl".to_string())) {
        QueueFollowUp::ShowRunning(role) => assert_eq!(role, Some("impl".to_string())),
        other => panic!("{other:?}"),
    }
    assert!(matches!(queue_follow_up(true, &None), QueueFollowUp::ShowRunning(None)));
    assert!(matches!(queue_follow_up(false, &Some("impl".to_string())), QueueFollowUp::Report));
}

#[test]
fn reported_statuses_are_known() {
    let (kind, runtime, state) = match parse_terminal_status_spec("stopped_no_final_answer") {
        Ok(t) => t,
        Err(e) => panic!("{e}"),
    };
    assert!(kind == DispatchEventKind::FailRuntime);
    assert!(runtime == OrchdRuntimeState::Failed);
    assert!(state == DispatchState::FailedRuntime);
    match parse_terminal_status_spec("odd") {
        Ok(_) => panic!("no such status"),
        Err(e) => assert_eq!(e, "unsupported finalize status 'odd'"),
    }
}

#[test]
fn branches_are_pushed_and_workers_named() {
    let (args, said) = push_branch("abc", "origin", "b");
    assert_eq!(args, vec!["push", "-u", "origin", "HEAD:b"]);
    assert_eq!(said, "pushed branch: abc -> origin/b");
    let (args, said) = autoland_to_main("abc", "origin", "main");
    assert_eq!(args, vec!["push", "origin", "HEAD:main"]);
    assert_eq!(said, "autoland: pushed abc -> origin/main");
    assert_eq!(worker_identity(&None, &None, 9), "deployd:localhost:pid-9");
    assert_eq!(worker_identity(&Some("w".to_string()), &None, 9), "w");
}

fn session(id: i64, status: DispatchState, role: &str, session: Option<&str>) -> IssueResumeDispatch {
    IssueResumeDispatch {
        id,
        status,
        target_role: role.to_string(),
        codex_session_id: session.map(str::to_string),
    }
}

#[test]
fn sessions_of_ended_dispatches_are_resumed() {
    let rows = vec![
        session(5, DispatchState::Completed, "codex-dev", Some(" s5 ")),
        session(4, DispatchState::Completed, "codex-dev", Some("s4")),
    ];
    let pick = |rows: &Vec<IssueResumeDispatch>, id| {
        issue_resume_command(None, rows, id, false, "main/a#1", "a", 1)
    };
    assert_eq!(pick(&rows, None), Ok(("codex-dev".to_string(), "s5".to_string())));
    assert_eq!(pick(&rows, Some(4)), Ok(("codex-dev".to_string(), "s4".to_string())));
    assert_eq!(
        pick(&rows, Some(9)),
        Err("dispatch 9 is not a resumable session for main/a#1".to_string())
    );
    assert_eq!(
        pick(&vec![], None),
        Err("issue main/a#1 has no associated codex_session_id".to_string())
    );
    assert_eq!(
        issue_resume_command(Some((7, DispatchState::Running)), &rows, None, false, "main/a#1", "a", 1),
        Err("issue main/a#1 has in-flight dispatch 7 (running)".to_string())
    );
    let mixed = vec![
        session(5, DispatchState::Completed, "codex-lead", Some("s5")),
        session(4, DispatchState::Completed, "codex-dev", Some("s4")),
    ];
    assert_eq!(
        pick(&mixed, None),
        Err("issue main/a#1 has sessions for multiple roles (codex-dev, codex-lead); re-run with --role <role> or --dispatch-id <id> (hint: orchd issue sessions a 1)".to_string())
    );
    let open = vec![session(5, DispatchState::Starting, "codex-dev", Some("s5"))];
    assert_eq!(
        pick(&open, None),
        Err("issue main/a#1 has non-terminal latest dispatch 5 (starting)".to_string())
    );
    let bare = vec![session(5, DispatchState::Blocked, "codex-dev", None)];
    assert_eq!(
        pick(&bare, None),
        Err("latest dispatch 5 for main/a#1 has no codex_session_id".to_string())
    );
}

#[test]
fn sessions_are_listed() {
    let rows = vec![session(5, DispatchState::TimedOut, "codex-dev", None)];
    let list = issue_session_summaries(&rows);
    assert_eq!(list[0].status, "timed_out");
    assert_eq!(list[0].codex_session_id, "");
    assert_eq!(pad("ab", 4), "ab  ");
    assert_eq!(pad("abcd", 2), "abcd");
    assert_eq!(session_line("5", "x", "r", "s"), format!("{:<12} {:<16} {:<18} {}", "5", "x", "r", "s"));
    let tail = vec!["--model".to_string()];
    assert_eq!(run_codex_resume("codex-dev", "s", &tail), vec!["dev", "resume", "s", "--model"]);
    assert_eq!(resume_failure(Some(2)), "codex resume exited with status code 2");
    assert_eq!(resume_failure(None), "codex resume terminated by signal");
}

#[test]
fn repositories_are_named_without_their_owner() {
    assert_eq!(validate_repo_name(" forgejo-work "), Ok("forgejo-work"));
    assert_eq!(validate_repo_name(" "), Err("repo must be non-empty".to_string()));
    assert!(validate_repo_name("main/x").is_err());
    assert_eq!(validate_repo_name("a b"), Err("repo must not contain whitespace".to_string()));
    assert_eq!(normalized_role_filter(&Some(" Codex-Dev ".to_string())), Ok(Some("codex-dev".to_string())));
    assert!(normalized_role_filter(&Some(" ".to_string())).is_err());
    let known = vec!["main/z".to_string(), "other/a".to_string(), "main/b".to_string(), "main/z".to_string()];
    assert_eq!(
        ensure_repo_known(false, "q", &known),
        Err("unknown repo 'q' (owner main); known repos: b, other/a, z".to_string())
    );
    assert_eq!(
        ensure_repo_known(false, "q", &vec![]),
        Err("unknown repo 'q' (owner main); orchd db has no known repos yet".to_string())
    );
    assert!(ensure_repo_known(true, "q", &vec![]).is_ok());
}

fn phase_row(reason: Option<&str>) -> DispatchPhaseNotificationRow {
    DispatchPhaseNotificationRow {
        dispatch_id: 1,
        phase: DispatchNotificationPhase::Failed,
        repo_full_name: "main/a".to_string(),
        issue_number: 4,
        directive: "impl".to_string(),
        target_role: "codex-dev".to_string(),
        status: DispatchState::TimedOut,
        reason_code: reason.map(str::to_string),
        dedupe_key: "k".to_string(),
    }
}

#[test]
fn notices_say_what_happened() {
    assert_eq!(thread_key("main/a", 4), "main/a#4");
    assert_eq!(
        dispatch_body(&phase_row(Some("timeout"))),
        "issue: main/a#4\ndirective: impl\nrole: codex-dev\nstate: timed_out\nreason: timeout"
    );
    assert_eq!(
        dispatch_body(&phase_row(Some(" "))),
        "issue: main/a#4\ndirective: impl\nrole: codex-dev\nstate: timed_out"
    );
    let reply = ReplyNotificationRow {
        event_id: 1,
        repo_full_name: "main/a".to_string(),
        issue_number: 4,
        actor_login: "codex-dev".to_string(),
        event_text: "\n  done \nmore".to_string(),
        dedupe_key: "k".to_string(),
    };
    assert_eq!(reply_body(&reply), "main/a#4 — codex-dev: done");
    assert_eq!(first_non_empty_line(" \n"), "commented");
    assert_eq!(truncate_ellipsis("abc", 2), "ab…");
    assert_eq!(truncate_ellipsis("ab", 2), "ab");
}

#[test]
fn replies_keep_phases_quiet() {
    let quiet = notify_dispatch_phase(&phase_row(None), &vec!["main/a#4".to_string()]);
    assert!(matches!(quiet, PhaseNotice::Suppressed { .. }));
    match notify_dispatch_phase(&phase_row(None), &vec!["main/a#5".to_string()]) {
        PhaseNotice::Send { thread, summary, .. } => {
            assert_eq!(thread, "main/a#4");
            assert_eq!(summary, "dispatch failed");
        }
        PhaseNotice::Suppressed { .. } => panic!("no reply announced the thread"),
    }
    assert_eq!(delivery_kind(true, false), Some("dispatch_phase_suppressed"));
    assert_eq!(delivery_kind(false, true), Some("dispatch_phase"));
    assert_eq!(delivery_kind(false, false), None);
    assert_eq!(default_notify_phases().len(), 3);
}

#[test]
fn notices_look_like_their_thread() {
    assert_eq!(pastel_of_digest(&vec![0, 255, 16]), "#80ff88");
    assert_eq!(pastel_bgcolor(""), pastel_bgcolor("global"));
    assert_eq!(pastel_bgcolor("abc"), "#ddbc8b");
    assert_eq!(replacement_id("abc"), "251777002");
    let args = send_notification("orchd", "s", "b", "abc");
    assert_eq!(args, vec!["-a", "orchd", "-r", "251777002", "-h", "string:bgcolor:#ddbc8b", "s", "b"]);
}

#[test]
fn bad_configs_are_reported_once() {
    let live = DispatchConfigLive::load("version = 1\n", 1);
    let (live, step) = live.reload_probe(Ok("version = ["));
    let sha256 = match step {
        ReloadStep::Load { sha256 } => sha256,
        _ => panic!("a changed text is loaded"),
    };
    let good = live.reload.last_good_sha256.clone();
    let (live, told) = live.reload_loaded(sha256.clone(), Err("broken".to_string()));
    match told {
        Reloaded::Report { sha256: of, error } => {
            assert_eq!((of, error), (sha256.clone(), "broken".to_string()));
        }
        _ => panic!("what is wrong is told"),
    }
    assert_eq!(*live.snapshot(), 1);
    assert_eq!(live.reload.last_good_sha256, good);
    assert!(matches!(live.reload.last_error, Some(DispatchConfigReloadError::InvalidToml { .. })));
    let (live, told) = live.reload_loaded(sha256, Err("broken".to_string()));
    assert!(matches!(told, Reloaded::Known));
    let (live, step) = live.reload_probe(Ok("version = ["));
    assert!(matches!(step, ReloadStep::Nothing));
    let (live, step) = live.reload_probe(Err("gone".to_string()));
    assert!(matches!(step, ReloadStep::ReportIo(_)));
    let (live, step) = live.reload_probe(Err("gone".to_string()));
    assert!(matches!(step, ReloadStep::Nothing));
    assert_eq!(*live.snapshot(), 1);
    let (live, step) = live.reload_probe(Ok("version = 1\n"));
    assert!(matches!(step, ReloadStep::Nothing));
    assert!(live.reload.last_error.is_none());
}

#[test]
fn labels_of_a_state_replace_those_of_another() {
    let seen = vec![
        LabelSeen { id: 9, replaced: false },
        LabelSeen { id: 2, replaced: true },
        LabelSeen { id: 4, replaced: false },
        LabelSeen { id: 9, replaced: false },
    ];
    assert_eq!(replacement_label_ids(&seen, 7, Some(4)), vec![4, 7, 9]);
    assert_eq!(replacement_label_ids(&vec![], 7, None), vec![7]);

    let (s, _) = begin_showing(OrchdRuntimeState::Failed, Some(" timeout ".to_string()));
    let (s, action) = labels_read(s, seen);
    assert!(matches!(action, ShowAction::EnsureStateLabel { color: "b60205", .. }));
    let (_, action) = state_label_found(s, 7);
    match action {
        ShowAction::EnsureReasonLabel { reason, color, description, exclusive, .. } => {
            assert_eq!(reason, "timeout");
            assert_eq!(color, "8a1c2d");
            assert_eq!(description, "dispatch failed for this reason");
            assert!(!exclusive);
        }
        _ => panic!("the reason is shown"),
    }
    let (s, _) = begin_showing(OrchdRuntimeState::Completed, Some("ok".to_string()));
    let (s, _) = labels_read(s, vec![]);
    let (_, action) = state_label_found(s, 7);
    assert!(matches!(action, ShowAction::Replace(ids) if ids == vec![7]));
}

#[test]
fn states_fall_back_to_the_role() {
    let who = || Identity {
        forgejoctl_bin: "/bin/f".to_string(),
        config_file: None,
        token_file: "/t".to_string(),
    };
    assert!(matches!(project_issue_runtime_state(Ok(()), Some(who())), Shown::Done));
    assert!(matches!(
        project_issue_runtime_state(Err("down".to_string()), Some(who())),
        Shown::AsRole(i) if i.token_file == "/t"
    ));
    assert!(matches!(
        project_issue_runtime_state(Err("down".to_string()), None),
        Shown::Failed(e) if e == "down"
    ));
}

#[test]
fn the_tool_shows_states() {
    let identity = Identity {
        forgejoctl_bin: "/bin/f".to_string(),
        config_file: Some("/c".to_string()),
        token_file: "/t".to_string(),
    };
    assert_eq!(
        project_issue_runtime_state_as_role(
            &identity,
            "main/a#1",
            OrchdRuntimeState::Blocked,
            &Some(" why ".to_string())
        ),
        vec![
            "--config", "/c", "--token-file", "/t", "issue", "orchd-state", "main/a#1", "--to",
            "blocked", "--reason-code", "why"
        ]
    );
}
