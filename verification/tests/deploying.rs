use orchd::deploy::{
    append_command_log, begin_activation, deploy_branch_for_repo, deploy_checkout_path,
    deploy_release_root, detect_rollback_status, enqueue_push_event, exit_text, head_needs_deploy,
    install_release_with_rollback, is_managed_repo, is_null_sha, read_remote_branch_head,
    reconcile_head_enqueue, sha_can_be_shortened, short_sha, ActivateAction, ActivateReply,
    ActivateStep, DeployJob, HeadStep, Program,
};
use orchd::deploy_job::{
    begin_checkout_at_sha, begin_deploy, deploy_binary_paths, deploy_failure_title,
    ensure_checkout_at_sha, execute_deploy_job, machine_login, render_deploy_failure_issue,
    DeployAction, DeployFailure, DeployInput, DeployReply, DeployStep, FetchAction, FetchReply,
};
use orchd::types::RepoRef;
use orchd::webhook::WebhookPayload;
use orchd::worker::{
    begin_worker_pass, build_release, built_programs, run_worker_once, WorkerAction, WorkerReply,
    WorkerStep,
};

const SHA: &str = "0123456789abcdef0123456789abcdef01234567";

fn s(t: &str) -> String {
    t.to_string()
}

fn payload(push_ref: &str, after: &str, deleted: bool) -> WebhookPayload {
    WebhookPayload {
        action: None,
        repository: None,
        issue: None,
        comment: None,
        sender: None,
        push_ref: Some(s(push_ref)),
        after: Some(s(after)),
        deleted: Some(deleted),
    }
}

#[test]
fn pushes_to_the_managed_repository_are_deployed() {
    let none = vec![];
    let push = payload("refs/heads/main", SHA, false);
    assert_eq!(
        enqueue_push_event("main/forgejo-agent", &push, None, &none),
        Some((s("main"), s(SHA)))
    );
    assert_eq!(enqueue_push_event("main/other", &push, None, &none), None);
    assert_eq!(
        enqueue_push_event("main/other", &push, Some("main/other"), &none),
        Some((s("main"), s(SHA)))
    );
    let bound = vec![(s("main/forgejo-agent"), s("release"))];
    assert_eq!(enqueue_push_event("main/forgejo-agent", &push, None, &bound), None);
    assert_eq!(deploy_branch_for_repo(&bound, "main/forgejo-agent"), "release");
    assert_eq!(deploy_branch_for_repo(&bound, "main/x"), "main");
    let gone = payload("refs/heads/main", "0000000000000000000000000000000000000000", true);
    assert_eq!(enqueue_push_event("main/forgejo-agent", &gone, None, &none), None);
    assert!(is_managed_repo(&RepoRef::new("main", "a"), &RepoRef::new("main", "a")));
    assert!(!is_managed_repo(&RepoRef::new("main", "a"), &RepoRef::new("main", "b")));
}

#[test]
fn commits_are_shortened() {
    assert!(is_null_sha(" 0000000000000000000000000000000000000000 "));
    assert!(!is_null_sha("000"));
    assert!(sha_can_be_shortened(SHA));
    assert_eq!(short_sha(SHA), "0123456789ab");
    assert_eq!(short_sha(" abc "), "abc");
}

#[test]
fn heads_that_are_not_deployed_are_queued() {
    assert_eq!(read_remote_branch_head(&format!("{SHA}\trefs/heads/main\n")), Some(s(SHA)));
    assert_eq!(read_remote_branch_head(""), None);
    assert!(matches!(head_needs_deploy(&None, &None), HeadStep::Settled));
    assert!(matches!(head_needs_deploy(&Some(s("a")), &Some(s("a"))), HeadStep::Settled));
    assert!(matches!(head_needs_deploy(&Some(s("a")), &Some(s("b"))), HeadStep::AskActive(h) if h == "a"));
    assert_eq!(reconcile_head_enqueue("main/a", true, 5), None);
    assert_eq!(reconcile_head_enqueue("main/a", false, 5), Some(s("reconcile:main/a:5")));
}

#[test]
fn deploys_have_their_places() {
    let repo = RepoRef::new("main", "a");
    assert_eq!(deploy_checkout_path("/db/o", &repo), Ok(s("/db/deploy-checkouts/main/a")));
    assert_eq!(deploy_release_root("/db/o", &repo, "main"), Ok(s("/db/deploy-releases/main/a/main")));
    assert_eq!(deploy_checkout_path("/", &repo), Err(s("db path has no parent")));
    let release = build_release("/co", "/rel");
    assert_eq!(release.manifest, "/co/Cargo.toml");
    assert_eq!(release.orchd_built, "/co/target/release/orchd");
    assert_eq!(release.forgejoctl_built, "/co/target/release/forgejo-agent");
    assert_eq!(release.orchd, "/rel/bin/orchd");
    assert_eq!(release.forgejoctl, "/rel/bin/forgejoctl");
    assert!(built_programs(&release, true, true).is_ok());
    assert_eq!(
        built_programs(&release, false, false),
        Err(s("orchd binary missing after build: /co/target/release/orchd"))
    );
    assert_eq!(
        built_programs(&release, true, false),
        Err(s("forgejoctl binary missing after build: /co/target/release/forgejo-agent"))
    );
}

#[test]
fn programs_are_found_or_set() {
    assert_eq!(
        deploy_binary_paths(&None, &None, &Some(s("/h"))),
        Ok((s("/h/.local/bin/orchd"), s("/h/.local/bin/forgejoctl")))
    );
    assert_eq!(
        deploy_binary_paths(&Some(s("/a")), &Some(s("/b")), &None),
        Ok((s("/a"), s("/b")))
    );
    assert!(deploy_binary_paths(&None, &None, &None).is_err());
    assert_eq!(machine_login(&Ok(Some(s("Main")))), Ok(s("main")));
    assert_eq!(machine_login(&Ok(None)), Err(s("whoami response missing login field")));
    assert_eq!(machine_login(&Err(s("e"))), Err(s("whoami failed: e")));
    assert_eq!(exit_text(Some(3)), format!("{:?}", Some(3)));
    assert_eq!(exit_text(None), "None");
    assert!(append_command_log("l", Some(0), "out", "err").contains("out"));
}

fn activate(replies: Vec<ActivateReply<String>>) -> ActivateStep {
    let mut at = begin_activation();
    for r in replies {
        at = install_release_with_rollback(at.0, r);
    }
    at
}

#[test]
fn releases_are_taken_into_service() {
    let step = activate(vec![
        ActivateReply::Done,
        ActivateReply::There(true),
        ActivateReply::There(false),
        ActivateReply::Done,
        ActivateReply::Done,
        ActivateReply::Done,
    ]);
    assert!(matches!(step.1, ActivateAction::InService));
}

#[test]
fn failed_releases_are_rolled_back() {
    let step = activate(vec![
        ActivateReply::Done,
        ActivateReply::There(true),
        ActivateReply::There(false),
        ActivateReply::Done,
        ActivateReply::Done,
        ActivateReply::Failed(s("no start")),
    ]);
    assert!(matches!(step.1, ActivateAction::Restore(Program::Orchd, _)));
    let mut at = install_release_with_rollback(step.0, ActivateReply::Done);
    let mut steps = 0;
    while !matches!(at.1, ActivateAction::GiveUp(_)) {
        assert!(!matches!(at.1, ActivateAction::Restore(Program::Forgejoctl, _)));
        let reply = match at.1 {
            ActivateAction::DetectStatus => ActivateReply::Word(s("active")),
            _ => ActivateReply::Done,
        };
        at = install_release_with_rollback(at.0, reply);
        steps += 1;
        assert!(steps < 10);
    }
    match at.1 {
        ActivateAction::GiveUp(e) => assert!(e.contains("no start")),
        _ => unreachable!(),
    }
    assert_ne!(detect_rollback_status(Some(true)), detect_rollback_status(Some(false)));
}

#[test]
fn commits_are_checked_out() {
    let begin = |git, there| {
        begin_checkout_at_sha("http://h", "main", "main/a", &Ok(s("/co")), "main", SHA, git, there)
    };
    let step = match begin(false, false) {
        Ok(step) => step,
        Err(e) => panic!("{e}"),
    };
    assert!(matches!(&step.1, FetchAction::MakeParentAndGit(a) if a[0] == "clone"));
    match begin(false, true) {
        Ok((_, FetchAction::GiveUp(e))) => {
            assert_eq!(e, "deploy checkout path exists but is not a git repo: /co")
        }
        _ => panic!("the path is taken"),
    }
    let mut at = match begin(true, true) {
        Ok(step) => step,
        Err(e) => panic!("{e}"),
    };
    let mut steps = 0;
    while !matches!(at.1, FetchAction::Ready(_)) {
        at = ensure_checkout_at_sha(at.0, FetchReply::Done);
        steps += 1;
        assert!(steps < 10);
    }
    assert!(matches!(at.1, FetchAction::Ready(p) if p == "/co"));
}

fn input(repo: &str) -> DeployInput<String> {
    DeployInput {
        worker_identity: s("w"),
        db_path: s("/db/o"),
        managed_repo: None,
        orchd_bin: None,
        forgejoctl_bin: None,
        home: Some(s("/h")),
        job_id: 3,
        repo: s(repo),
        branch: s("main"),
        sha: s(SHA),
        attempt_count: 1,
    }
}

fn deploy(replies: Vec<DeployReply<String>>) -> DeployStep {
    let mut at = begin_deploy(input("main/forgejo-agent"));
    for r in replies {
        at = execute_deploy_job(at.0, r);
    }
    at
}

#[test]
fn deploys_run_to_their_end() {
    let logged = || DeployReply::Logged(s("x\n"));
    let step = deploy(vec![]);
    assert!(matches!(&step.1, DeployAction::MakeRunDir(d) if d == "/db/deploy-runs"));
    let step = deploy(vec![
        DeployReply::Done,
        DeployReply::Path(s("/co")),
        DeployReply::Done,
        logged(),
        logged(),
    ]);
    assert!(matches!(step.1, DeployAction::ReadState));
    let step = deploy(vec![
        DeployReply::Done,
        DeployReply::Path(s("/co")),
        DeployReply::Done,
        logged(),
        logged(),
        DeployReply::State { active: Some(s("old")), previous: None },
        logged(),
        DeployReply::Done,
        DeployReply::Done,
    ]);
    assert!(matches!(&step.1, DeployAction::Succeed { checkout, log_path }
        if checkout == "/co" && log_path == "/db/deploy-runs/deploy-3.log"));
}

#[test]
fn releases_that_do_not_fit_the_schema_fail() {
    let step = deploy(vec![
        DeployReply::Done,
        DeployReply::Path(s("/co")),
        DeployReply::Done,
        DeployReply::Logged(s("built\n")),
        DeployReply::Failed { log: s("guard\n"), error: s("schema") },
    ]);
    match step.1 {
        DeployAction::Fail { failure, log } => {
            assert_eq!(failure.error_text, "schema");
            assert_eq!(failure.checkout_path, Some(s("/co")));
            assert!(log.contains("built\n") && log.contains("guard\n"));
        }
        _ => panic!("the release is refused"),
    }
}

fn job() -> DeployJob {
    DeployJob {
        id: 3,
        repo_full_name: s("main/a"),
        target_branch: s("main"),
        target_sha: s(SHA),
        source_delivery_id: None,
        source_actor_login: None,
        attempt_count: 1,
    }
}

#[test]
fn failed_deploys_are_told() {
    assert_eq!(
        deploy_failure_title(&job()),
        Some(s("deploy failure: main/a main@0123456789ab"))
    );
    let body = render_deploy_failure_issue(&job(), &None, &Some(s("/l")), "ok", "boom", &Err(s("gone")));
    assert!(body.contains("error: boom\nrollback: ok\ncheckout: <none>\nlog: /l\n"));
}

fn failure() -> DeployFailure<String> {
    DeployFailure {
        reason_code: s("r"),
        error_text: s("e"),
        checkout_path: None,
        log_path: None,
        rollback_status: s("k"),
    }
}

fn pass(replies: Vec<WorkerReply<String>>) -> WorkerStep {
    let mut at = begin_worker_pass();
    for r in replies {
        at = run_worker_once(at.0, r);
    }
    at
}

#[test]
fn claimed_jobs_are_completed() {
    assert!(matches!(pass(vec![WorkerReply::Nothing]).1, WorkerAction::End(None)));
    assert!(matches!(pass(vec![WorkerReply::Failed(s("db"))]).1, WorkerAction::End(Some(e)) if e == "db"));
    let step = pass(vec![WorkerReply::Job(3), WorkerReply::Failed(s("ignored"))]);
    assert!(matches!(step.1, WorkerAction::Execute(3)));
    let step = pass(vec![
        WorkerReply::Job(3),
        WorkerReply::Done,
        WorkerReply::Deployed { checkout: s("/co"), log_path: s("/l") },
    ]);
    assert!(matches!(&step.1, WorkerAction::CompleteSuccess { job_id: 3, checkout, log_path }
        if checkout == "/co" && log_path == "/l"));
    let step = pass(vec![
        WorkerReply::Job(3),
        WorkerReply::Done,
        WorkerReply::NotDeployed(failure()),
        WorkerReply::Failed(s("no issue")),
    ]);
    assert!(matches!(&step.1, WorkerAction::CompleteFailure { job_id: 3, failure, incident: None }
        if failure.error_text == "e"));
    let step = pass(vec![
        WorkerReply::Job(3),
        WorkerReply::Done,
        WorkerReply::NotDeployed(failure()),
        WorkerReply::Issue(Some(8)),
    ]);
    assert!(matches!(step.1, WorkerAction::CompleteFailure { incident: Some(8), .. }));
}
