use orchd::finalize::work_state_transition_target;
use orchd::lexicon::{DIRECTIVE_DESIGN, DIRECTIVE_IMPL};
use orchd::pulls::{
    classify_persistent_merge_block, issue_identity_matches_pr,
    merge_endpoint_reports_try_again_later, superseded_pr_candidates, ApiHttpError, ApiPrBranchInfo,
    ApiPullRequest,
};
use orchd::template::render_prompt;
use orchd::types::{DispatchState, IssueRef};
use orchd::webhook::parse_directive;

fn fake_pr(number: u64, state: &str, title: &str, head_ref: &str, merged: bool) -> ApiPullRequest {
    ApiPullRequest {
        number,
        state: state.to_string(),
        title: title.to_string(),
        html_url: format!("http://127.0.0.1:3000/o/r/pulls/{number}"),
        merged,
        mergeable: None,
        head: ApiPrBranchInfo {
            ref_name: head_ref.to_string(),
            sha: format!("head-{number}"),
        },
        base: ApiPrBranchInfo {
            ref_name: "main".to_string(),
            sha: "base".to_string(),
        },
    }
}

fn issue(text: &str) -> IssueRef {
    match IssueRef::parse(text) {
        Ok(r) => r,
        Err(e) => panic!("issue ref parses: {e}"),
    }
}

#[test]
fn merge_endpoint_transient_405_is_detected() {
    let http = ApiHttpError {
        status: 405,
        method: "POST".to_string(),
        path: "/api/v1/repos/o/r/pulls/1/merge".to_string(),
        body: "{\"message\":\"Please try again later\"}".to_string(),
    };
    assert!(merge_endpoint_reports_try_again_later(&http));

    let other_405 = ApiHttpError {
        status: 405,
        method: "POST".to_string(),
        path: "/api/v1/repos/o/r/pulls/1/merge".to_string(),
        body: "{\"message\":\"Pull request is work in progress\"}".to_string(),
    };
    assert!(!merge_endpoint_reports_try_again_later(&other_405));
}

#[test]
fn persistent_merge_block_is_classified_from_mergeable_state() {
    assert_eq!(
        classify_persistent_merge_block(Some(false)),
        (
            "pr_not_mergeable",
            "mergeability is false after retry; manual conflict resolution is required"
        )
    );
    assert_eq!(
        classify_persistent_merge_block(None),
        ("pr_merge_blocked", "merge still blocked after retry")
    );
    assert_eq!(
        classify_persistent_merge_block(Some(true)),
        ("pr_merge_blocked", "merge still blocked after retry")
    );
}

#[test]
fn merge_blocked_template_renders_parseable_retry_directive() {
    let template = "Landing is blocked: {{error}}\n\n- pull request: {{pr_url}}\n- branch: {{branch}} -> {{base_branch}}\n\nTo retry:\n\n{{retry_mention}}\n";
    let rendered = render_prompt(
        template,
        &[
            ("pr_url", "http://127.0.0.1:3000/o/r/pulls/1"),
            ("branch", "orchd/branch"),
            ("base_branch", "main"),
            ("retry_mention", "@codex-orch impl"),
            ("error", "boom"),
        ],
    );
    let text = match rendered {
        Ok(text) => text,
        Err(_) => panic!("template renders"),
    };
    let parsed = match parse_directive(&text) {
        Some(parsed) => parsed,
        None => panic!("rendered template includes a parseable directive line"),
    };
    assert_eq!(parsed.role, "codex-orch");
    assert_eq!(parsed.directive, "impl");
}

#[test]
fn work_state_transition_only_happens_on_completed_impl() {
    assert_eq!(
        work_state_transition_target(DIRECTIVE_IMPL, DispatchState::Completed),
        Some("done")
    );
    assert_eq!(work_state_transition_target(DIRECTIVE_IMPL, DispatchState::Blocked), None);
    assert_eq!(
        work_state_transition_target(DIRECTIVE_IMPL, DispatchState::FailedRuntime),
        None
    );
    assert_eq!(work_state_transition_target(DIRECTIVE_IMPL, DispatchState::TimedOut), None);
    assert_eq!(
        work_state_transition_target(DIRECTIVE_DESIGN, DispatchState::Completed),
        None
    );
}

#[test]
fn issue_identity_match_accepts_title_or_branch_token() {
    let issue_ref = issue("main/forgejo-agent#139");

    let by_title = fake_pr(
        10,
        "open",
        "main/forgejo-agent#139: title",
        "orchd/d10/rmain-forgejo-agent-i999-impl",
        false,
    );
    assert!(issue_identity_matches_pr(&by_title, &issue_ref));

    let by_branch_token = fake_pr(
        11,
        "open",
        "unrelated title",
        "orchd/d11/rmain-forgejo-agent-i139-impl",
        false,
    );
    assert!(issue_identity_matches_pr(&by_branch_token, &issue_ref));

    let no_match = fake_pr(
        12,
        "open",
        "main/forgejo-agent#140: title",
        "orchd/d12/rmain-forgejo-agent-i140-impl",
        false,
    );
    assert!(!issue_identity_matches_pr(&no_match, &issue_ref));
}

#[test]
fn superseded_candidates_are_conservative_and_stable() {
    let issue_ref = issue("main/forgejo-agent#139");
    let candidates = superseded_pr_candidates(
        vec![
            fake_pr(
                130,
                "open",
                "main/forgejo-agent#139: landed",
                "orchd/d213/rmain-forgejo-agent-i139-impl",
                false,
            ),
            fake_pr(
                126,
                "open",
                "main/forgejo-agent#139: stale",
                "orchd/d204/rmain-forgejo-agent-i139-impl",
                false,
            ),
            fake_pr(
                120,
                "open",
                "main/forgejo-agent#120: other issue",
                "orchd/d190/rmain-forgejo-agent-i120-impl",
                false,
            ),
            fake_pr(
                125,
                "closed",
                "main/forgejo-agent#139: closed",
                "orchd/d1/rmain-forgejo-agent-i139-impl",
                false,
            ),
            fake_pr(
                127,
                "open",
                "main/forgejo-agent#139: merged",
                "orchd/d205/rmain-forgejo-agent-i139-impl",
                true,
            ),
            fake_pr(
                128,
                "open",
                "main/forgejo-agent#139: not orchd branch",
                "feature/i139-manual",
                false,
            ),
            fake_pr(
                129,
                "open",
                "unrelated",
                "orchd/d206/rmain-forgejo-agent-i139-impl",
                false,
            ),
        ],
        &issue_ref,
        130,
    );
    let numbers = candidates.into_iter().map(|pr| pr.number).collect::<Vec<_>>();
    assert_eq!(numbers, vec![126, 129]);
}
