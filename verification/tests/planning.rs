use orchd::admission::{Admission, Binding};
use orchd::checkouts::{
    begin_principal_sync, best_effort_sync_principal, checkout_path, clone_args,
    create_dispatch_worktree, ensure_repo_checkout, lock_text, CheckoutStep, GitReply, SyncAction,
    SyncStep,
};
use orchd::errors::DispatchError;
use orchd::healing::{
    find_issue_inflight_dispatch_with_healing, heal_stale_inflight_dispatches, heals_after_probe,
    should_heal_dispatch_stale, starting_staleness, unit_is_alive, DispatchBackendKind, HealAction,
    HealPhase, HealReply, Healing, InflightDispatch, Staleness,
};
use orchd::ledger::DispatchReservation;
use orchd::planning::{
    begin_plan, plan_dispatch, principal_workdir, reservation, reservation_reply, PlanAction,
    PlanReply, PlanStep, Sidecar,
};
use orchd::projection::LabelSeen;
use orchd::reaping::{
    begin_reaping, release_stale_issue_claim_and_reset_workflow, Claim, ReapAction, ReapReply,
    ReapStep,
};
use orchd::repo::{
    dispatch_worktree_branch, git_askpass_script_path, git_sanitize_token, lock_root,
    repo_checkout_root, repo_lock_path, repo_store_root, run_root,
};
use orchd::types::{DispatchState, RepoRef};

fn admission(directive: &str, bound: bool) -> Admission<String> {
    let s = |t: &str| t.to_string();
    Admission {
        directive: s(directive),
        prompt_file: s("/p.md"),
        timeout_sec: 60,
        role: s("codex-dev"),
        codex_bin: s("/bin/codex"),
        codex_role_arg: s("dev"),
        forgejo_login: s("codex-dev"),
        token_file: s("/t"),
        actor: s("main"),
        principal: s("main"),
        codex_profile: None,
        repo: s("main/a"),
        issue_number: 7,
        intent_id: s("event-3-decision-4"),
        binding: if bound {
            Some(Binding { local_path: s("/home/a"), git_remote: s("up"), git_base: s("dev") })
        } else {
            None
        },
    }
}

fn text(t: &str) -> PlanReply<String, DispatchError> {
    PlanReply::Text(t.to_string())
}

fn issue() -> PlanReply<String, DispatchError> {
    PlanReply::Issue { title: "Fix".to_string(), body: None, url: "u".to_string() }
}

fn walk(step: PlanStep, replies: Vec<PlanReply<String, DispatchError>>) -> PlanStep {
    let mut at = step;
    for reply in replies {
        at = plan_dispatch(at.0, reply);
    }
    at
}

fn begin(directive: &str, bound: bool) -> PlanStep {
    begin_plan(admission(directive, bound), None, "/db/o.sqlite", 3)
}

fn reserved(directive: &str, bound: bool) -> PlanStep {
    walk(
        begin(directive, bound),
        vec![
            PlanReply::Nothing,
            PlanReply::Nothing,
            text("/lock"),
            issue(),
            text("delta"),
            PlanReply::Started(5),
        ],
    )
}

#[test]
fn fresh_sessions_read_everything() {
    let step = walk(begin("impl", true), vec![PlanReply::Nothing, PlanReply::Nothing, text("/lock"), issue()]);
    assert!(matches!(step.1, PlanAction::ReadDelta { after: None, limit: 2000, fresh: true }));
    let step = walk(begin("impl", true), vec![PlanReply::Nothing, text("s"), text("/lock"), issue()]);
    assert!(matches!(step.1, PlanAction::ReadCursor));
    let step = walk(step, vec![PlanReply::Number(2)]);
    assert!(matches!(step.1, PlanAction::ReadDelta { after: Some(2), limit: 200, fresh: false }));
}

#[test]
fn plans_are_reserved_for_what_they_do() {
    let row = reservation(&begin("impl", true).0, 9, &Some("main".to_string()), "t1");
    assert_eq!((row.decision_id, row.issue_number), (9, 7));
    assert_eq!((row.repo_full_name.as_str(), row.started_at.as_str()), ("main/a", "t1"));
    assert_eq!(row.actor_login, Some("main".to_string()));
    assert_eq!((row.directive.as_str(), row.target_role.as_str()), ("impl", "codex-dev"));
    let reply = |reserved| reservation_reply(reserved);
    assert!(matches!(reply(Ok(DispatchReservation::Started(3))), PlanReply::Started(3)));
    assert!(matches!(reply(Ok(DispatchReservation::InFlightIssue(3))), PlanReply::Taken(3)));
    assert!(matches!(reply(Ok(DispatchReservation::InFlightRepo(3))), PlanReply::Taken(3)));
    assert!(matches!(reply(Err("e".to_string())), PlanReply::Failed(e) if e == "e"));
}

#[test]
fn plans_make_worktrees_for_changes() {
    let step = reserved("impl", true);
    assert!(matches!(&step.1, PlanAction::MakeRunDir(d) if d == "/db/dispatch-runs/dispatch-5"));
    let step = walk(step, vec![PlanReply::Done]);
    assert!(matches!(&step.1, PlanAction::Checkout(r) if r == "main/a"));
    let step = walk(step, vec![text("/co"), PlanReply::There(false)]);
    assert!(matches!(&step.1, PlanAction::EnsureLabels(a) if *a == vec!["repo", "ensure", "main/a"]));
    let step = walk(step, vec![PlanReply::Failed("no".to_string())]);
    assert!(matches!(&step.1, PlanAction::RecordLabels(Some(e)) if e == "no"));
    let step = walk(step, vec![PlanReply::Done]);
    match &step.1 {
        PlanAction::AddWorktree(w) => {
            assert_eq!(w.checkout, "/co");
            assert_eq!(w.worktree, "/db/dispatch-runs/dispatch-5/worktree");
            assert_eq!(w.branch, "orchd/d5/rmain-a-i7-impl");
            assert_eq!((w.remote.as_str(), w.base.as_str()), ("up", "dev"));
        }
        _ => panic!("a worktree is made"),
    }
    let step = walk(step, vec![PlanReply::Done]);
    assert!(matches!(step.1, PlanAction::Ready));
    assert_eq!(principal_workdir(&step.0), Some("/home/a".to_string()));
    assert_eq!(step.0.dispatch_id, 5);
}

#[test]
fn plans_without_changes_use_the_checkout() {
    let step = walk(
        reserved("reply", false),
        vec![PlanReply::Done, text("/co"), PlanReply::There(true)],
    );
    assert!(matches!(step.1, PlanAction::Ready));
    assert_eq!(step.0.workdir, "/co");
    assert_eq!(step.0.git_branch, "");
    assert_eq!(principal_workdir(&step.0), None);
}

#[test]
fn sidecars_get_a_worktree_of_their_own() {
    let s = |t: &str| t.to_string();
    let sidecar = |binding| Sidecar { owner: s("main"), repo: s("b"), binding };
    let until = |sidecar| {
        walk(
            begin_plan(admission("impl", true), Some(sidecar), "/db/o.sqlite", 3),
            vec![
                PlanReply::Nothing,
                PlanReply::Nothing,
                text("/lock"),
                issue(),
                text("delta"),
                PlanReply::Started(5),
                PlanReply::Done,
                text("/co"),
                PlanReply::There(true),
                PlanReply::Done,
            ],
        )
    };
    let bound = Binding { local_path: s("/home/b"), git_remote: s("o"), git_base: s("m") };
    let step = walk(until(sidecar(Some(bound))), vec![text("/cob")]);
    match &step.1 {
        PlanAction::AddSidecarWorktree { parent, worktree } => {
            assert_eq!(parent.as_deref(), Some("/db/dispatch-runs/dispatch-5/sidecar"));
            assert_eq!(worktree.worktree, "/db/dispatch-runs/dispatch-5/sidecar/main__b");
            assert_eq!(worktree.branch, "orchd/d5/rmain-b-i7-impl");
        }
        _ => panic!("a worktree is made"),
    }
    match until(sidecar(None)).1 {
        PlanAction::FailStart { dispatch_id: 5, error: DispatchError::Io(e), .. } => assert_eq!(
            e,
            "repo binding for main/a references sidecar repo main/b but it is missing from dispatch config"
        ),
        _ => panic!("the sidecar is not bound"),
    }
}

#[test]
fn reserved_dispatches_are_settled() {
    let step = walk(reserved("impl", true), vec![PlanReply::Failed("full".to_string())]);
    match step.1 {
        PlanAction::FailStart { dispatch_id: 5, lock_path, error: DispatchError::Io(e) } => {
            assert_eq!(lock_path, "/lock");
            assert_eq!(e, "failed to create run dir: full");
        }
        _ => panic!("the start failed"),
    }
    let step = walk(
        begin("impl", true),
        vec![
            PlanReply::Nothing,
            PlanReply::Nothing,
            text("/lock"),
            issue(),
            text("delta"),
            PlanReply::Taken(4),
        ],
    );
    assert!(matches!(step.1, PlanAction::ReleaseAndRefuse {
        error: DispatchError::IssueDispatchInFlight { dispatch_id: 4, issue_number: 7, .. },
        ..
    }));
}

#[test]
fn issues_in_flight_are_refused() {
    let step = walk(begin("impl", true), vec![PlanReply::Number(2)]);
    assert!(matches!(step.1, PlanAction::Refuse(DispatchError::IssueDispatchInFlight {
        dispatch_id: 2,
        issue_number: 7,
        ..
    })));
    let step = walk(begin("impl", true), vec![PlanReply::Failed("db".to_string())]);
    assert!(matches!(&step.1, PlanAction::Refuse(DispatchError::Db(e)) if e == "db"));
}

#[test]
fn worktrees_are_made_from_the_base() {
    match create_dispatch_worktree(false, true, "/r", "/w", "b", "origin", "main") {
        Ok(c) => {
            assert_eq!(c.fetch, vec!["fetch", "origin", "main"]);
            assert_eq!(c.add, vec!["worktree", "add", "-B", "b", "/w", "origin/main"]);
        }
        Err(e) => panic!("{}", e.message()),
    }
    assert!(matches!(create_dispatch_worktree(true, true, "/r", "/w", "b", "o", "m"),
        Err(DispatchError::Io(e)) if e == "dispatch worktree path already exists: /w"));
    assert!(matches!(create_dispatch_worktree(false, false, "/r", "/w", "b", "o", "m"),
        Err(DispatchError::Io(e)) if e == "repo root is not a git checkout: /r"));
}

#[test]
fn checkouts_are_refreshed_or_cloned() {
    assert!(matches!(ensure_repo_checkout("/a/b", true, true),
        Ok(CheckoutStep::Refresh(v)) if v == vec!["fetch", "origin", "main"]));
    assert!(matches!(ensure_repo_checkout("/a/b", false, false),
        Ok(CheckoutStep::Clone { parent: Some(p) }) if p == "/a"));
    assert!(matches!(ensure_repo_checkout("/a/b", false, true),
        Err(DispatchError::Io(e)) if e == "repo checkout path exists but is not a git repo: /a/b"));
    match clone_args("http://h", "codex-dev", "main/a", "/co") {
        Ok(v) => assert_eq!(v, vec!["clone", "--origin", "origin", "http://codex-dev@h/main/a.git", "/co"]),
        Err(e) => panic!("{}", e.message()),
    }
    assert!(matches!(checkout_path("/db/o", "codex-dev", "bad"),
        Err(DispatchError::InvalidIssueRef(r)) if r == "bad"));
    assert_eq!(lock_text("main/a", "t"), "repo=main/a\ncreated_at=t\n");
}

#[test]
fn principals_are_only_fast_forwarded() {
    let out = |t: &str| GitReply::Out(t.to_string());
    let walk = |replies: Vec<GitReply<String>>| -> SyncStep {
        let mut at = begin_principal_sync("main", "http://u");
        for r in replies {
            at = best_effort_sync_principal(at.0, r);
        }
        at
    };
    let said = |step: SyncStep| match step.1 {
        SyncAction::Finish(t) => t,
        _ => panic!("it is not over"),
    };
    assert_eq!(
        said(walk(vec![GitReply::Failed("e".to_string())])),
        "principal_sync: skipped (not a git repo): e"
    );
    assert_eq!(
        said(walk(vec![out("true"), out(" M x")])),
        "principal_sync: skipped (principal has uncommitted changes)"
    );
    assert_eq!(
        said(walk(vec![out("true"), out(""), out("dev")])),
        "principal_sync: skipped (on branch 'dev', expected 'main')"
    );
    let step = walk(vec![out("true"), out(""), out("main")]);
    assert!(matches!(&step.1, SyncAction::GitWithToken(a) if *a == vec!["fetch", "http://u", "main"]));
    let step = walk(vec![out("true"), out(""), out("main"), out(""), GitReply::Failed("e".to_string())]);
    assert!(matches!(&step.1, SyncAction::Git(a) if *a == vec!["merge", "--ff-only", "FETCH_HEAD"]));
    assert_eq!(
        said(walk(vec![
            out("true"),
            out(""),
            out("main"),
            out(""),
            GitReply::Failed("e".to_string()),
            out(""),
            out("def"),
        ])),
        "principal_sync: fast-forwarded ? -> def from http://u:main"
    );
}

#[test]
fn places_lie_beside_the_store() {
    let ok = |r: Result<String, DispatchError>| match r {
        Ok(p) => p,
        Err(e) => panic!("{}", e.message()),
    };
    assert_eq!(ok(lock_root("/db/o.sqlite")), "/db/locks");
    assert_eq!(ok(run_root("/db/o.sqlite")), "/db/dispatch-runs");
    assert!(ok(repo_store_root("/db/o.sqlite")).starts_with("/db/"));
    assert!(ok(git_askpass_script_path("/db/o.sqlite")).starts_with("/db/"));
    let root = ok(repo_checkout_root("/db/o.sqlite", "codex-dev", &RepoRef::new("main", "a")));
    assert!(root.contains("codex-dev") && root.contains("main") && root.ends_with('a'));
    assert!(matches!(lock_root("/"), Err(DispatchError::Io(e)) if e == "db path has no parent"));
    assert_eq!(repo_lock_path("/db/locks", "main/a"), "/db/locks/main__a.lock");
    assert_eq!(git_sanitize_token("--A b//C", 24), "a-b-c");
    assert_eq!(git_sanitize_token("abcdef", 3), "abc");
    assert_eq!(
        dispatch_worktree_branch("main/Forgejo.Agent", 12, 9, "impl"),
        "orchd/d9/rmain-forgejo-agent-i12-impl"
    );
}

fn inflight(status: DispatchState, started_at: &str, backend: bool) -> InflightDispatch {
    InflightDispatch {
        id: 1,
        repo_full_name: "main/a".to_string(),
        issue_number: 7,
        status,
        started_at: started_at.to_string(),
        backend_kind: if backend { Some(DispatchBackendKind::Systemd) } else { None },
        backend_ref: if backend { Some("u".to_string()) } else { None },
        lock_path: None,
    }
}

#[test]
fn dispatches_go_stale() {
    assert_eq!(starting_staleness(None, true, true), Staleness::Stale);
    assert_eq!(starting_staleness(Some(119), false, false), Staleness::Live);
    assert_eq!(starting_staleness(Some(120), false, true), Staleness::Stale);
    assert_eq!(starting_staleness(Some(120), true, false), Staleness::Stale);
    assert_eq!(starting_staleness(Some(120), true, true), Staleness::Probe);
    let at = "1970-01-01T00:01:40+00:00";
    let look = |d: &InflightDispatch, now| should_heal_dispatch_stale(d, now, 0);
    assert_eq!(look(&inflight(DispatchState::Starting, at, false), 219), Staleness::Live);
    assert_eq!(look(&inflight(DispatchState::Starting, at, false), 220), Staleness::Stale);
    assert_eq!(look(&inflight(DispatchState::Starting, "no time", true), 0), Staleness::Stale);
    assert_eq!(look(&inflight(DispatchState::Starting, at, true), 220), Staleness::Probe);
    assert_eq!(look(&inflight(DispatchState::Running, at, true), 100), Staleness::Probe);
    assert_eq!(look(&inflight(DispatchState::Running, at, false), 100), Staleness::Stale);
    assert_eq!(look(&inflight(DispatchState::Completed, at, true), 999), Staleness::Live);
    assert!(heals_after_probe(Some(false)));
    assert!(!heals_after_probe(Some(true)));
    assert!(!heals_after_probe(None));
    assert!(unit_is_alive(true, "active"));
    assert!(!unit_is_alive(true, "failed"));
    assert!(!unit_is_alive(false, "active"));
}

#[test]
fn stale_dispatches_are_healed_one_by_one() {
    let s = Healing { phase: HealPhase::Look, dispatch_id: 0 };
    let (s, a) = find_issue_inflight_dispatch_with_healing(
        s,
        HealReply::Latest(Some((4, Staleness::Probe))),
    );
    assert!(matches!(a, HealAction::Probe(4)));
    let (s, a) = find_issue_inflight_dispatch_with_healing(s, HealReply::Alive(Some(false)));
    assert!(matches!(a, HealAction::Mark(4)));
    let (s, a) = find_issue_inflight_dispatch_with_healing(s, HealReply::Done);
    assert!(matches!(a, HealAction::Look));
    let (_, a) = find_issue_inflight_dispatch_with_healing(
        s,
        HealReply::Latest(Some((2, Staleness::Live))),
    );
    assert!(matches!(a, HealAction::Found(Some(2))));
    let found = vec![
        (1, Staleness::Stale, None),
        (2, Staleness::Live, Some(false)),
        (3, Staleness::Probe, Some(false)),
        (4, Staleness::Probe, None),
    ];
    assert_eq!(heal_stale_inflight_dispatches(&found), vec![1, 3]);
}

#[test]
fn stale_claims_are_released() {
    let claims = || {
        vec![
            Claim { id: 1, name: "claimed/x".to_string() },
            Claim { id: 2, name: "claimed/y".to_string() },
        ]
    };
    let issue = |claims, busy| ReapReply::Issue {
        claims,
        seen: vec![LabelSeen { id: 8, replaced: true }, LabelSeen { id: 5, replaced: false }],
        in_progress: busy,
    };
    let walk = |replies: Vec<ReapReply<String, Vec<Claim<String>>, Vec<LabelSeen>>>| -> ReapStep {
        let mut at = begin_reaping(true, "main/a", 7);
        for r in replies {
            at = release_stale_issue_claim_and_reset_workflow(at.0, r);
        }
        at
    };
    let step = walk(vec![issue(claims(), Ok(true))]);
    assert!(matches!(step.1, ReapAction::RemoveLabel(1)));
    let step = walk(vec![issue(claims(), Ok(true)), ReapReply::Done]);
    assert!(matches!(step.1, ReapAction::RemoveLabel(2)));
    let step = walk(vec![issue(vec![], Ok(true)), issue(vec![], Ok(true))]);
    match step.1 {
        ReapAction::EnsureReadyLabel { color, description, exclusive } => {
            assert_eq!((color.as_str(), description.as_str()), ("5319e7", "workflow state"));
            assert!(exclusive);
        }
        _ => panic!("the issue becomes ready"),
    }
    let step = walk(vec![
        issue(claims(), Ok(true)),
        ReapReply::Done,
        ReapReply::Done,
        issue(vec![], Ok(true)),
        ReapReply::Label(3),
    ]);
    assert!(matches!(&step.1, ReapAction::Replace(ids) if *ids == vec![3, 5]));
    let step = walk(vec![issue(vec![], Ok(true)), issue(vec![], Ok(false))]);
    assert!(matches!(step.1, ReapAction::End(None)));
    let said = |step: ReapStep| match step.1 {
        ReapAction::End(Some(e)) => e,
        _ => panic!("it failed"),
    };
    assert_eq!(said(walk(vec![ReapReply::Failed])), "loading issue main/a#7 for stale dispatch reap");
    assert_eq!(
        said(walk(vec![issue(claims(), Ok(true)), ReapReply::Done, ReapReply::Failed])),
        "removing stale claim label claimed/y from issue main/a#7"
    );
    assert_eq!(
        said(walk(vec![issue(vec![], Ok(true)), ReapReply::Failed])),
        "reloading issue main/a#7 after claim removal"
    );
    assert_eq!(
        said(walk(vec![issue(vec![], Ok(true)), issue(vec![], Ok(true)), ReapReply::Failed])),
        "resetting issue main/a#7 workflow from in-progress to ready"
    );
    assert_eq!(
        said(walk(vec![issue(vec![], Ok(true)), issue(vec![], Err("two states".to_string()))])),
        "two states"
    );
    assert_eq!(said(begin_reaping(true, "bad", 7)), "parsing stale dispatch repo");
    assert_eq!(
        said(begin_reaping(false, "main/a", 7)),
        "initializing Forgejo client for stale dispatch reap"
    );
}
