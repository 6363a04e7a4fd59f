use orchd::landing::{
    begin_landing, evaluate_landing_target, Landing, LandingAction, LandingEnd, LandingInput,
    LandingOutcome, LandingReply, LandingStep, Reply,
};
use orchd::pulls::{ApiPrBranchInfo, ApiPullRequest};

const URL: &str = "http://codex-dev@h:3000/main/a.git";

fn input(directive: &str, principal: bool) -> LandingInput<String> {
    LandingInput {
        dispatch_id: 5,
        directive: directive.to_string(),
        role_name: "codex-dev".to_string(),
        issue_repo_owner: "main".to_string(),
        issue_repo_name: "a".to_string(),
        issue_number: 7,
        issue_title: "Fix".to_string(),
        kind: "primary".to_string(),
        repo_owner: "main".to_string(),
        repo_name: "a".to_string(),
        git_remote: "origin".to_string(),
        git_base: "main".to_string(),
        git_branch: " orchd/d5 ".to_string(),
        has_principal: principal,
    }
}

fn pull(number: u64, head: &str, merged: bool) -> ApiPullRequest {
    ApiPullRequest {
        number,
        state: "open".to_string(),
        title: "t".to_string(),
        html_url: format!("u{number}"),
        merged,
        mergeable: None,
        head: ApiPrBranchInfo { ref_name: head.to_string(), sha: String::new() },
        base: ApiPrBranchInfo { ref_name: "main".to_string(), sha: String::new() },
    }
}

fn text(t: &str) -> Reply {
    LandingReply::Text(t.to_string())
}

fn failed(t: &str) -> Reply {
    LandingReply::Failed(t.to_string())
}

fn http(status: u16, body: &str) -> Reply {
    LandingReply::Http { status, body: body.to_string(), text: format!("status {status}") }
}

fn walk(step: LandingStep, replies: Vec<Reply>) -> LandingStep {
    let mut at = step;
    for reply in replies {
        at = evaluate_landing_target(at.0, reply);
    }
    at
}

fn end(step: LandingStep) -> LandingOutcome {
    match step.1 {
        LandingAction::Finish(e) => e,
        _ => panic!("the landing is not over"),
    }
}

fn until_client() -> Landing {
    let step = walk(begin_landing(input("impl", false)), vec![text(""), text("abc123"), text("zzz")]);
    assert!(matches!(step.1, LandingAction::OpenClient));
    step.0
}

fn until_merge() -> Landing {
    let step = walk(
        (until_client(), LandingAction::OpenClient),
        vec![
            text("http://h:3000"),
            LandingReply::Pulls(vec![]),
            text("codex-dev"),
            text("abc"),
            LandingReply::Done,
            LandingReply::Pulls(vec![pull(9, "orchd/d5", false)]),
        ],
    );
    assert!(matches!(&step.1, LandingAction::MergePull { number: 9, sha, pause_sec: 0 } if sha == "abc123"));
    step.0
}

#[test]
fn only_changes_of_code_land() {
    assert!(matches!(end(begin_landing(input("plan", false))), LandingEnd::NotRequired));
    let mut bare = input("impl", false);
    bare.git_branch = " ".to_string();
    match end(begin_landing(bare)) {
        LandingEnd::Failure { reason_code, lines } => {
            assert_eq!(reason_code, "landing_missing_branch");
            assert_eq!(lines, vec!["[main/a] pr landing failed: missing git branch name"]);
        }
        _ => panic!("there is nothing to land"),
    }
}

#[test]
fn dirty_worktrees_block_a_landing() {
    match end(walk(begin_landing(input("impl", false)), vec![text(" M a.rs")])) {
        LandingEnd::Blocked { reason_code, lines, comment: Some(c) } => {
            assert_eq!(reason_code, "worktree_dirty");
            assert_eq!(lines, vec!["[main/a] pr landing blocked: uncommitted changes in worktree"]);
            assert_eq!(c.delivery_kind, "worktree_dirty");
            assert_eq!(c.dedupe_key, "dispatch:5:primary:worktree_dirty");
            assert_eq!(
                c.body,
                "PR landing blocked: worktree has uncommitted changes.\n- repo: `main/a`\n- branch: `orchd/d5`\n\nretry: @codex-dev impl\n\nhint: commit your changes (or discard them) and re-run.\n"
            );
        }
        _ => panic!("the worktree is dirty"),
    }
}

#[test]
fn work_without_changes_is_skipped() {
    let step = walk(begin_landing(input("impl", false)), vec![text(""), text("abc")]);
    assert!(matches!(&step.1, LandingAction::GitRevParse(r) if r == "origin/main"));
    match end(walk(step, vec![text("abc")])) {
        LandingEnd::Success(lines) => {
            assert_eq!(lines, vec!["[main/a] pr landing: skipped (no changes)"])
        }
        _ => panic!("there is nothing to land"),
    }
    match end(walk(begin_landing(input("impl", false)), vec![text(""), text(" ")])) {
        LandingEnd::Failure { reason_code, lines } => {
            assert_eq!(reason_code, "landing_git_head_failed");
            assert_eq!(lines, vec!["[main/a] pr landing failed: head sha was empty"]);
        }
        _ => panic!("there is no head"),
    }
}

#[test]
fn each_step_fails_with_its_reason() {
    let reason = |replies: Vec<Reply>| match end(walk(begin_landing(input("impl", false)), replies)) {
        LandingEnd::Failure { reason_code, .. } => reason_code,
        _ => panic!("expected a failure"),
    };
    let e = || failed("e");
    let t = text;
    let none = || LandingReply::Pulls(vec![]);
    assert_eq!(reason(vec![e()]), "landing_git_status_failed");
    assert_eq!(reason(vec![t(""), e()]), "landing_git_head_failed");
    let head = || vec![t(""), t("abc"), e()];
    let mut v = head();
    v.push(LandingReply::ConfigFailed("e".to_string()));
    assert_eq!(reason(v), "landing_config_error");
    let mut v = head();
    v.push(e());
    assert_eq!(reason(v), "landing_api_client_error");
    let client = || {
        let mut v = head();
        v.push(t("http://h"));
        v
    };
    let mut v = client();
    v.push(e());
    assert_eq!(reason(v), "landing_pr_list_failed");
    let mut v = client();
    v.push(none());
    v.push(e());
    assert_eq!(reason(v), "landing_whoami_failed");
    let mut v = client();
    v.extend(vec![none(), LandingReply::Done]);
    match end(walk(begin_landing(input("impl", false)), v)) {
        LandingEnd::Failure { reason_code, lines } => {
            assert_eq!(reason_code, "landing_whoami_failed");
            assert_eq!(lines, vec!["[main/a] pr landing failed: whoami missing login field"]);
        }
        _ => panic!("expected a failure"),
    }
    let known = || {
        let mut v = client();
        v.extend(vec![none(), t("codex-dev"), e()]);
        v
    };
    let mut v = known();
    v.push(e());
    assert_eq!(reason(v), "landing_git_push_failed");
    let mut v = known();
    v.extend(vec![LandingReply::Done, e()]);
    assert_eq!(reason(v), "landing_pr_list_failed");
    let mut v = known();
    v.extend(vec![LandingReply::Done, none(), e()]);
    assert_eq!(reason(v), "landing_pr_create_failed");
    let mut v = head();
    v.extend(vec![t("no url"), none(), t("codex-dev")]);
    assert_eq!(reason(v), "landing_git_url_failed");
}

#[test]
fn merged_work_closes_what_it_supersedes() {
    let step = walk(
        begin_landing(input("impl", true)),
        vec![
            text(""),
            text("abc123"),
            failed("no such ref"),
            text("http://h:3000"),
            LandingReply::Pulls(vec![]),
            text("codex-dev"),
            text("abc"),
        ],
    );
    match &step.1 {
        LandingAction::GitPush { url, refspec, lease: None } => {
            assert_eq!(url, URL);
            assert_eq!(refspec, "HEAD:orchd/d5");
        }
        _ => panic!("the branch is pushed"),
    }
    let step = walk(step, vec![LandingReply::Done, LandingReply::Pulls(vec![])]);
    match &step.1 {
        LandingAction::CreatePull { title, body, head, base } => {
            assert_eq!(title, "main/a#7: Fix");
            assert_eq!(body, "Automated PR for main/a#7.");
            assert_eq!((head.as_str(), base.as_str()), ("orchd/d5", "main"));
        }
        _ => panic!("a pull request is made"),
    }
    let step = walk(
        step,
        vec![
            LandingReply::Pull { number: 9, url: "u9".to_string() },
            LandingReply::Done,
            LandingReply::Pulls(vec![
                pull(9, "orchd/d5/ra-i7-impl", false),
                pull(4, "orchd/d3/ra-i7-impl", false),
                pull(3, "other-i7-x", false),
            ]),
        ],
    );
    match &step.1 {
        LandingAction::CommentIssue { number: 4, body } => {
            assert_eq!(body, "Superseded by #9 (u9) after successful re-dispatch; closing.")
        }
        _ => panic!("the older pull request is commented on"),
    }
    let step = walk(step, vec![LandingReply::Done, failed("no")]);
    assert!(matches!(&step.1, LandingAction::SyncPrincipal { base, url } if base == "main" && url == URL));
    match end(walk(step, vec![LandingReply::Lines(vec!["synced".to_string()])])) {
        LandingEnd::Success(lines) => assert_eq!(
            lines,
            vec![
                format!("[main/a] git_push: abc -> orchd/d5 ({URL})"),
                "[main/a] pr_create: #9 (u9)".to_string(),
                "[main/a] pr_merge: ff-only #9 (u9)".to_string(),
                "[main/a] pr_supersede_comment: #4 -> #9 (u9)".to_string(),
                "[main/a] pr_supersede_close_failed: #4: no".to_string(),
                "synced".to_string(),
            ]
        ),
        _ => panic!("the work landed"),
    }
}

#[test]
fn merged_branches_are_not_pushed_again() {
    let step = walk(
        (until_client(), LandingAction::OpenClient),
        vec![
            text("http://h:3000"),
            LandingReply::Pulls(vec![pull(8, "orchd/d5", true)]),
            text("codex-dev"),
            failed("down"),
        ],
    );
    match end(step) {
        LandingEnd::Success(lines) => assert_eq!(
            lines,
            vec![
                "[main/a] pr landing: already merged #8 (u8)",
                "[main/a] pr_supersede_scan_failed: listing open PRs for superseded reconciliation failed: down",
            ]
        ),
        _ => panic!("the work landed before"),
    }
}

#[test]
fn merges_are_tried_three_times() {
    let step = evaluate_landing_target(until_merge(), http(405, "Please try again later"));
    assert!(matches!(step.1, LandingAction::MergePull { number: 9, pause_sec: 10, .. }));
    let step = evaluate_landing_target(step.0, http(500, ""));
    assert!(matches!(step.1, LandingAction::MergePull { number: 9, pause_sec: 10, .. }));
    let step = evaluate_landing_target(step.0, http(409, ""));
    assert_eq!(
        step.0.lines[1..],
        vec![
            "pr_merge_retry: mergeability not ready status=405 attempt=1/3".to_string(),
            "pr_merge_retry: transient server error status=500 attempt=2/3".to_string(),
            "[main/a] pr_merge_retry: status=409 attempting rebase".to_string(),
        ]
    );
    assert!(matches!(&step.1, LandingAction::GitFetch { url, base } if url == URL && base == "main"));
}

#[test]
fn refused_merges_fail_at_once() {
    match end(evaluate_landing_target(until_merge(), http(405, "no"))) {
        LandingEnd::Failure { reason_code, lines } => {
            assert_eq!(reason_code, "landing_pr_merge_failed");
            assert_eq!(lines, vec!["[main/a] pr landing failed: status 405"]);
        }
        _ => panic!("the forge refused"),
    }
}

#[test]
fn conflicts_block_a_landing() {
    let step = walk(
        evaluate_landing_target(until_merge(), http(409, "")),
        vec![LandingReply::Done, failed("conflict")],
    );
    assert!(matches!(&step.1, LandingAction::AbortRebaseAndReadTemplate(p)
        if p == "templates/orchd-landing-pr-rebase-conflict.md"));
    match end(walk(step, vec![text("{{pr_url}} {{branch}} {{base_branch}} {{retry_mention}} {{error}}")])) {
        LandingEnd::Blocked { reason_code, lines, comment: Some(c) } => {
            assert_eq!(reason_code, "pr_rebase_conflict");
            assert_eq!(lines, vec!["[main/a] pr landing blocked: rebase conflict: conflict"]);
            assert_eq!(c.dedupe_key, "dispatch:5:primary:pr_rebase_conflict");
            assert_eq!(c.body, "u9 orchd/d5 main @codex-dev impl conflict");
        }
        _ => panic!("there are conflicts"),
    }
}

#[test]
fn rebased_work_is_pushed_with_a_lease() {
    let step = walk(
        evaluate_landing_target(until_merge(), http(423, "")),
        vec![LandingReply::Done, LandingReply::Done, text("def456"), failed("no short name")],
    );
    match &step.1 {
        LandingAction::GitPush { url, refspec, lease: Some(lease) } => {
            assert_eq!(url, URL);
            assert_eq!(refspec, "HEAD:orchd/d5");
            assert_eq!(lease, "--force-with-lease=refs/heads/orchd/d5:abc123");
        }
        _ => panic!("the branch is pushed with a lease"),
    }
    let step = walk(step, vec![LandingReply::Done]);
    assert!(matches!(&step.1, LandingAction::MergePull { number: 9, sha, pause_sec: 0 } if sha == "def456"));
    match end(walk(step, vec![LandingReply::Done, LandingReply::Pulls(vec![])])) {
        LandingEnd::Success(lines) => assert_eq!(
            lines[1..],
            vec![
                "[main/a] pr_merge_retry: status=423 attempting rebase".to_string(),
                "[main/a] git_rebase: now at def456".to_string(),
                "[main/a] pr_merge: ff-only #9 (u9)".to_string(),
            ]
        ),
        _ => panic!("the work landed"),
    }
}

#[test]
fn merges_that_stay_blocked_are_told() {
    let rebased = || {
        walk(
            evaluate_landing_target(until_merge(), http(409, "")),
            vec![LandingReply::Done, LandingReply::Done, text("def"), text("d"), LandingReply::Done],
        )
    };
    let step = walk(rebased(), vec![http(405, "Please try again later")]);
    assert!(matches!(&step.1, LandingAction::ListPulls(state) if state == "open"));
    let other = ApiPullRequest { mergeable: Some(true), ..pull(8, "b", false) };
    let this = ApiPullRequest { mergeable: Some(false), ..pull(9, "orchd/d1", false) };
    let step = walk(step, vec![LandingReply::Pulls(vec![other, this])]);
    match end(walk(step, vec![text("{{error}}")])) {
        LandingEnd::Blocked { reason_code, lines, comment: Some(c) } => {
            assert_eq!(reason_code, "pr_not_mergeable");
            assert_eq!(
                lines,
                vec!["[main/a] pr landing blocked: mergeability is false after retry; manual conflict resolution is required: status 405"]
            );
            assert_eq!(
                c.body,
                "mergeability is false after retry; manual conflict resolution is required\n\nraw error: status 405"
            );
        }
        _ => panic!("the merge is blocked"),
    }
    let step = walk(rebased(), vec![http(409, "")]);
    assert!(matches!(&step.1, LandingAction::ReadTemplate(p)
        if p == "templates/orchd-landing-pr-merge-blocked.md"));
    match end(walk(step, vec![text("{{error}}")])) {
        LandingEnd::Blocked { reason_code, comment: Some(c), .. } => {
            assert_eq!(reason_code, "pr_merge_blocked");
            assert_eq!(c.dedupe_key, "dispatch:5:primary:pr_merge_blocked");
            assert_eq!(c.body, "status 409");
        }
        _ => panic!("the merge is blocked"),
    }
}
