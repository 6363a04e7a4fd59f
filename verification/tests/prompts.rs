use orchd::acl_compile::{CardFile, RankAclFile, RoleCard};
use orchd::admission::{admit_dispatch, resolve_codex_profile_override, Admission};
use orchd::artifacts::{compose_prompt, materialize_run_artifacts, PromptFiles, RunSettings};
use orchd::cli::DispatchMode;
use orchd::config_load::{
    load_dispatch_config, DispatchConfig, DispatchConfigFile, DispatchDirectiveConfig,
    DispatchNotificationPhase, DispatchNotificationsConfig, DispatchRepoBindingConfig,
    DispatchTriggerGuardrailsConfig, RoleFile,
};
use orchd::defaults::{
    default_git_base, default_git_remote, default_rank_acl_enabled, default_timeout_sec,
};
use orchd::envelopes::DispatchPromptEnvelopeConfig;
use orchd::errors::DispatchError;
use orchd::ingress::Event;
use orchd::inquisition::{maybe_spawn_inquisition, run_forgejoctl, InquisitionSpec};
use orchd::notifier::{
    notify_dispatch_phases, notify_replies, phase_summary, DispatchPhaseNotificationRow,
    PhaseNotice, ReplyNotificationRow,
};
use orchd::planning::{begin_plan, Planning};
use orchd::preview::{preview_target, prompt_preview_command, Preview};
use orchd::projection::{dispatch_comment_identity, orchd_runtime_label_meta};
use orchd::reading_material::{
    doc_ref_pointer, render_reading_material_markdown, sha256_file, DocDisposition, DocFile,
    DocImportance, DocKind, PlannedDoc, RuleLayer,
};
use orchd::runner::CodexSandbox;
use orchd::types::{DispatchState, IssueRef, OrchdRuntimeState, RepoRef};
use orchd::webhook::{Decision, DecisionRecord};

fn s(t: &str) -> String {
    t.to_string()
}

fn config(bound: bool) -> DispatchConfig {
    let role = |name: &str| RoleFile {
        name: s(name),
        codex_bin: s("/bin/codex"),
        codex_role_arg: None,
        forgejo_login: None,
        token_file: format!("/t/{name}"),
    };
    let directive = |name: &str| DispatchDirectiveConfig {
        name: s(name),
        role: s("codex-dev"),
        prompt_file: format!("/p/{name}.md"),
        timeout_sec: default_timeout_sec(),
    };
    let file = DispatchConfigFile {
        version: 1,
        allowed_actors: vec![s("main")],
        prompt_envelopes: DispatchPromptEnvelopeConfig {
            preamble_file: s("/p/preamble.md"),
            fresh_envelope: s("/p/fresh.md"),
            followup_envelope: s("/p/followup.md"),
            turn_context_file: s("/p/turn.md"),
            issue_fresh_file: s("/p/issue-fresh.md"),
            issue_followup_file: s("/p/issue-followup.md"),
        },
        notifications: DispatchNotificationsConfig {
            enabled: false,
            poll_sec: 5,
            phases: vec![],
            app_name: s("orchd"),
            watch_login: s("main"),
            notify_send_bin: s("notify-send"),
        },
        rank_acl: RankAclFile {
            enabled: default_rank_acl_enabled(),
            ranks: vec![],
            role_overrides: vec![],
        },
        roles: vec![role("codex-dev")],
        control_plane_token_file: None,
        directives: vec![directive("impl"), directive("reply")],
        repo_bindings: if bound {
            vec![DispatchRepoBindingConfig {
                repo: s("main/a"),
                local_path: s("/home/a"),
                git_remote: default_git_remote(),
                git_base: default_git_base(),
            }]
        } else {
            vec![]
        },
        legacy_triggers: false,
        trigger_guardrails: DispatchTriggerGuardrailsConfig {
            max_depth_per_issue: 1,
            max_dispatches_per_window: 1,
            window_sec: 1,
            cooldown_sec: 1,
            deny_immediate_self_loop: true,
        },
        triggers: vec![],
        forgejoctl_bin: s("/bin/forgejoctl"),
    };
    let card = |role: &str, rank: &str| RoleCard {
        role: s(role),
        file: CardFile::Text(format!("# {role}\n\n- {rank}\n")),
    };
    let cards = vec![card("codex-dev", "OF-2"), card("main", "OF-10")];
    match load_dispatch_config("/c/d.toml", &file, &Some(s("/h")), &cards) {
        Ok(c) => c,
        Err(e) => panic!("{e}"),
    }
}

fn event(actor: &str, issue: Option<u64>, text: &str) -> Event<String> {
    Event {
        delivery_id: s("d"),
        event_type: s("issue_comment"),
        repo_full_name: s("main/a"),
        issue_number: issue,
        action: None,
        actor_login: Some(s(actor)),
        event_text: Some(s(text)),
        source_comment_id: None,
        source_created_at: None,
        raw_json: s("{}"),
    }
}

fn decision(directive: Option<&str>, role: Option<&str>) -> DecisionRecord {
    Decision {
        decision: s("accepted"),
        reason_code: s("explicit_directive"),
        directive: directive.map(s),
        target_role: role.map(s),
        principal_login: None,
        would_dispatch: true,
    }
}

fn enter(
    c: &DispatchConfig,
    e: &Event<String>,
    d: &DecisionRecord,
) -> Result<Admission<String>, DispatchError> {
    admit_dispatch(c, e, d, 3, 4, &None)
}

#[test]
fn admissions_obey_the_config() {
    let c = config(true);
    let e = event("Main", Some(7), "@codex-dev impl");
    match enter(&c, &e, &decision(Some("impl"), None)) {
        Ok(a) => {
            assert_eq!(a.role, "codex-dev");
            assert_eq!((a.actor.as_str(), a.principal.as_str()), ("main", "main"));
            assert_eq!(a.intent_id, "event-3-decision-4");
            assert_eq!(a.binding.map(|b| b.local_path), Some(s("/home/a")));
            assert_eq!(a.prompt_file, "/p/impl.md");
        }
        Err(e) => panic!("{}", e.message()),
    }
    let fault = |r: Result<Admission<String>, DispatchError>| match r {
        Ok(_) => panic!("expected a refusal"),
        Err(e) => e,
    };
    assert!(matches!(fault(enter(&c, &e, &decision(None, None))),
        DispatchError::DirectiveNotConfigured(d) if d == "<none>"));
    assert!(matches!(fault(enter(&c, &e, &decision(Some("plan"), None))),
        DispatchError::DirectiveNotConfigured(d) if d == "plan"));
    assert!(matches!(fault(enter(&c, &e, &decision(Some("impl"), Some("Codex-Z")))),
        DispatchError::RoleNotConfigured(r) if r == "codex-z"));
    let stranger = event("Stranger", Some(7), "x");
    assert!(matches!(fault(enter(&c, &stranger, &decision(Some("impl"), None))),
        DispatchError::ActorNotAllowed(a) if a == "stranger"));
    let dev = event("codex-dev", Some(7), "x");
    assert!(matches!(fault(enter(&c, &dev, &decision(Some("impl"), None))), DispatchError::RankAclDenied(_)));
    let nowhere = event("main", None, "x");
    assert!(matches!(fault(enter(&c, &nowhere, &decision(Some("impl"), None))),
        DispatchError::InvalidIssueRef(r) if r == "main/a"));
    assert!(matches!(fault(enter(&config(false), &e, &decision(Some("impl"), None))),
        DispatchError::RepoBindingMissing(r) if r == "main/a"));
    assert!(enter(&config(false), &e, &decision(Some("reply"), None)).is_ok());
}

#[test]
fn profiles_are_used_where_they_are_configured() {
    let c = config(true);
    let agent = Some(s("[profiles.fast]\nmodel = \"x\"\n"));
    let d = decision(Some("impl"), None);
    let fast = event("main", Some(7), "@codex-dev impl profile=fast");
    let slow = event("main", Some(7), "@codex-dev impl profile=slow");
    assert_eq!(resolve_codex_profile_override("main", &d, &fast, &agent), Some(s("fast")));
    assert_eq!(resolve_codex_profile_override("main", &d, &slow, &agent), None);
    assert_eq!(resolve_codex_profile_override("main", &d, &fast, &None), None);
    assert_eq!(resolve_codex_profile_override("codex-dev", &d, &fast, &agent), None);
    let mut triggered = decision(Some("impl"), None);
    triggered.reason_code = s("registered_trigger");
    assert_eq!(resolve_codex_profile_override("main", &triggered, &fast, &agent), None);
    match admit_dispatch(&c, &fast, &d, 3, 4, &agent) {
        Ok(a) => assert_eq!(a.codex_profile, Some(s("fast"))),
        Err(e) => panic!("{}", e.message()),
    }
    match admit_dispatch(&c, &slow, &d, 3, 4, &agent) {
        Ok(a) => assert_eq!(a.codex_profile, None),
        Err(e) => panic!("{}", e.message()),
    }
}

fn plan(directive: &str, session: Option<&str>) -> Planning<String> {
    let e = event("main", Some(7), "x");
    let a = match enter(&config(true), &e, &decision(Some(directive), None)) {
        Ok(a) => a,
        Err(e) => panic!("{}", e.message()),
    };
    let mut p = begin_plan(a, None, "/db/o", 3).0;
    p.session = session.map(s);
    p.title = s("Fix");
    p.body = s("please");
    p.delta = s("history");
    p.url = s("u");
    p.dispatch_id = 5;
    p.run_dir = s("/run");
    p.lock_path = s("/lock");
    p.workdir = s("/w");
    p
}

fn files() -> PromptFiles {
    PromptFiles {
        orders: Ok(s("ORDERS")),
        preamble: Ok(s("PREAMBLE")),
        role_card: Ok(s("CARD")),
        turn_context: Ok(s("TURN")),
        issue: Ok(s("ISSUE")),
        envelope: Ok(s("{{preamble_md}}|{{dispatch_md}}|{{reading_material_md}}|{{issue_md}}|{{orders_md}}")),
    }
}

#[test]
fn prompts_are_put_together() {
    let c = config(true);
    let compose = |p: &Planning<String>, f: &PromptFiles| {
        compose_prompt(&c.prompt_envelopes, &c.rank_acl, p, "issue_comment", "READ", f)
    };
    match compose(&plan("impl", Some("s")), &files()) {
        Ok(t) => assert_eq!(t, "|TURN|READ|ISSUE|ORDERS"),
        Err(e) => panic!("{}", e.message()),
    }
    match compose(&plan("impl", None), &files()) {
        Ok(t) => assert!(t.starts_with("PREAMBLE") && t.ends_with("|TURN|READ|ISSUE|ORDERS"), "{t}"),
        Err(e) => panic!("{}", e.message()),
    }
    let mut f = files();
    f.orders = Err(s("gone"));
    assert!(matches!(compose(&plan("impl", None), &f),
        Err(DispatchError::Io(e)) if e == "failed reading prompt /p/impl.md: gone"));
    let mut f = files();
    f.envelope = Err(s("gone"));
    assert!(matches!(compose(&plan("impl", None), &f),
        Err(DispatchError::Io(e)) if e == "failed reading prompt envelope /p/fresh.md: gone"));
}

#[test]
fn runs_are_materialized() {
    let settings = || RunSettings {
        forgejoctl_bin: s("/bin/f"),
        forgejo_config_file: None,
        control_token_file: None,
    };
    match materialize_run_artifacts(DispatchMode::Exec, &plan("impl", None), &settings()) {
        Ok(spec) => {
            assert!(spec.validate().is_ok());
            assert_eq!(spec.prompt_path, "/run/prompt.md");
            assert_eq!(spec.last_message_path, "/run/last_message.md");
            assert_eq!(spec.marker_path, "/run/start.marker");
            assert_eq!(spec.issue_ref, "main/a#7");
            assert!(spec.codex_sandbox == CodexSandbox::WorkspaceWrite);
        }
        Err(e) => panic!("{}", e.message()),
    }
    assert!(matches!(
        materialize_run_artifacts(DispatchMode::DryRun, &plan("impl", None), &settings()),
        Err(DispatchError::ConfigNotLoaded)
    ));
    assert!(matches!(
        materialize_run_artifacts(DispatchMode::Exec, &plan("impl", Some("bad")), &settings()),
        Err(DispatchError::Io(e)) if e.starts_with("invalid codex session id: ")
    ));
}

#[test]
fn prompts_are_previewed() {
    let c = config(true);
    assert!(preview_target(&c, "codex-dev", "impl").is_ok());
    assert!(preview_target(&c, "codex-z", "impl").is_err());
    assert!(preview_target(&c, "codex-dev", "plan").is_err());
    let p = Preview {
        role: s("codex-dev"),
        prompt_file: s("/p/impl.md"),
        fresh: false,
        issue_ref: s("main/a#7"),
        issue_title: s("Fix"),
        issue_body: s("please"),
        activity: s("none"),
        reading_material: s("READ"),
    };
    match prompt_preview_command(&c.prompt_envelopes, &c.rank_acl, &p, &files()) {
        Ok(t) => assert_eq!(t, "|TURN|READ|ISSUE|ORDERS"),
        Err(e) => panic!("{e}"),
    }
}

#[test]
fn identities_come_from_the_role() {
    let c = Some(config(true));
    match dispatch_comment_identity(&c, &Some(s("codex-dev")), &Some(s("/cfg"))) {
        Some(i) => {
            assert_eq!(i.token_file, "/t/codex-dev");
            assert_eq!(i.config_file, Some(s("/cfg")));
            assert_eq!(i.forgejoctl_bin, "/bin/forgejoctl");
        }
        None => panic!("the role is configured"),
    }
    assert!(dispatch_comment_identity(&c, &Some(s("Codex-Dev")), &None).is_none());
    assert!(dispatch_comment_identity(&c, &None, &None).is_none());
    assert!(dispatch_comment_identity(&None, &Some(s("codex-dev")), &None).is_none());
    assert_eq!(orchd_runtime_label_meta(OrchdRuntimeState::Failed).0, "b60205");
}

#[test]
fn failures_are_looked_into() {
    let spec = InquisitionSpec {
        source_issue: IssueRef { repo: RepoRef::new("main", "a"), number: 7 },
        source_issue_title: None,
        source_issue_url: None,
        dispatch_id: Some(5),
        directive: None,
        role_name: None,
        reason_code: s("timeout"),
        exit_code: None,
        run_dir: None,
        log_file: None,
        completion_file: None,
        error_text: None,
    };
    assert!(maybe_spawn_inquisition(false, "main", &spec).is_none());
    let c = match maybe_spawn_inquisition(true, "main", &spec) {
        Some(c) => c,
        None => panic!("the ticket is opened"),
    };
    assert_eq!(c.ensure_repo, vec!["repo", "ensure", "main/forgejo-work"]);
    assert_eq!(c.ensure_failure, "failed ensuring inquisition repo main/forgejo-work");
    assert_eq!(c.create_failure, "failed creating inquisition ticket in main/forgejo-work");
    assert_eq!(&c.create_issue[..4], &["issue", "create", "main/forgejo-work", "--title"]);
    assert_eq!(&c.create_issue[7..], &["--workflow", "triage"]);
    assert_eq!(
        run_forgejoctl(&Some(s("/c")), "/t", &vec![s("x")]),
        vec!["--config", "/c", "--token-file", "/t", "x"]
    );
    assert_eq!(run_forgejoctl(&None, "/t", &vec![s("x")]), vec!["--token-file", "/t", "x"]);
}

#[test]
fn announced_threads_stay_quiet() {
    let reply = |issue| ReplyNotificationRow {
        event_id: 1,
        repo_full_name: s("main/a"),
        issue_number: issue,
        actor_login: s("x"),
        event_text: s("y"),
        dedupe_key: s("k"),
    };
    let phase = |issue| DispatchPhaseNotificationRow {
        dispatch_id: 1,
        phase: DispatchNotificationPhase::Started,
        repo_full_name: s("main/a"),
        issue_number: issue,
        directive: s("impl"),
        target_role: s("r"),
        status: DispatchState::Running,
        reason_code: None,
        dedupe_key: s("k"),
    };
    let threads = notify_replies(&vec![reply(1), reply(2)], &vec![true, false]);
    assert_eq!(threads, vec!["main/a#1"]);
    let notices = notify_dispatch_phases(&vec![phase(1), phase(2)], &threads);
    assert!(matches!(notices[0], PhaseNotice::Suppressed { .. }));
    assert!(matches!(&notices[1], PhaseNotice::Send { summary, .. } if summary == "dispatch started"));
    assert_eq!(phase_summary(DispatchNotificationPhase::Completed), "dispatch completed");
}

#[test]
fn documents_are_digested() {
    match sha256_file("/d", true, 3, &b"abc".to_vec()) {
        DocFile::Found { bytes, sha256 } => {
            assert_eq!(bytes, 3);
            assert_eq!(sha256, "ba7816bf8f01cfea414140de5dae2223b00361a396177a9cb410ff61f20015ad");
        }
        DocFile::Failed(e) => panic!("{e}"),
    }
    assert!(matches!(sha256_file("/d", false, 0, &vec![]), DocFile::Failed(_)));
    let doc = |place: &str, disposition, kind| PlannedDoc {
        layer: RuleLayer::Global,
        order: 1,
        desired_kind: kind,
        disposition,
        importance: DocImportance::Required,
        doc_ref: s(place),
        resolved_path: Some(s("/w/docs/a.md")),
        bytes: Some(3),
        sha256: None,
        downgraded_reason: None,
        omitted_reason: None,
    };
    let docs = vec![
        doc("workdir:docs/a.md", DocDisposition::Included, DocKind::Include),
        doc("docs/a.md", DocDisposition::Included, DocKind::Include),
        doc("workdir:docs/a.md", DocDisposition::Included, DocKind::Include),
    ];
    let contents = vec![Ok(s("CONTENT")), Ok(s("x")), Err(s("gone"))];
    let (text, warnings) = render_reading_material_markdown(&docs, &contents, "/w", &vec![]);
    assert_eq!(
        text,
        "## Reading material\n\nIncluded:\n- `workdir:docs/a.md`\n\n```text\nCONTENT\n```\n\n\n"
    );
    assert_eq!(
        warnings,
        vec![
            "docs/a.md: unsupported ref format (expected workdir:... or repo:...): docs/a.md",
            "workdir:docs/a.md: gone",
        ]
    );
    let pointed = doc("workdir:docs/a.md", DocDisposition::Pointed, DocKind::Point);
    assert!(doc_ref_pointer(&pointed).is_some());
    assert_eq!(render_reading_material_markdown(&vec![], &vec![], "/w", &vec![]).0, "");
}
