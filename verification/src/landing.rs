//! Lands the branch of a finished dispatch: pushes it, opens its pull request and merges that.
//!
//! The work outside (git, the forge, files) is done by the caller, one action at a time. Each answer
//! leads to the next action until the landing is over. The types are generic over how texts and lists
//! are held: `String` and `Vec` at run time, sequences in contracts.

use crate::lexicon::DIRECTIVE_IMPL;
use crate::pulls::{
    candidates, classify_persistent_merge_block, fetch_open_pr_mergeable_state,
    law_candidates_are_ordered_and_exact, merge_block, mergeability, superseded,
    superseded_pr_candidates, try_again_later, ApiPullRequest,
};
use crate::repo::{forgejo_http_git_url, git_url_result};
use crate::template::{pairs, render_prompt, rendered};
use crate::text::{
    add_text, cat2, cat3, cat4, cat5, cat6, cat7, clone_list, decimal, decimal_int, first_chars,
    has_part, i64_text, lower, str_contains, str_eq, str_first_chars, str_starts_with, str_trim,
    trim, u64_text, views,
};
use crate::types::{IssueRef, RepoRef};
use vstd::prelude::*;
use vstd::string::*;

verus! {

/// A comment on the issue, sent once per key.
#[verifier::ext_equal]
pub struct LandingComment<S> {
    pub delivery_kind: S,
    pub dedupe_key: S,
    pub body: S,
}

/// How a landing ends.
#[verifier::ext_equal]
pub enum LandingEnd<S, L> {
    NotRequired,
    Success(L),
    Blocked { reason_code: S, lines: L, comment: Option<LandingComment<S>> },
    Failure { reason_code: S, lines: L },
}

/// How a landing ends, at run time.
pub type LandingOutcome = LandingEnd<String, Vec<String>>;

/// What a landing works on.
#[verifier::ext_equal]
pub struct LandingInput<S> {
    pub dispatch_id: i64,
    pub directive: S,
    pub role_name: S,
    pub issue_repo_owner: S,
    pub issue_repo_name: S,
    pub issue_number: u64,
    pub issue_title: S,
    pub kind: S,
    pub repo_owner: S,
    pub repo_name: S,
    pub git_remote: S,
    pub git_base: S,
    pub git_branch: S,
    pub has_principal: bool,
}

/// Which answer a landing waits for.
#[derive(Clone, Copy, PartialEq, Eq, Structural)]
pub enum LandingPhase {
    Status,
    Head,
    BaseHead,
    OpenClient,
    ListFirst,
    Whoami,
    HeadShort,
    Push,
    ListSecond,
    Create,
    Merge,
    Fetch,
    Rebase,
    ConflictTemplate,
    RebasedHead,
    RebasedShort,
    PushRebased,
    MergeRebased,
    Mergeable,
    BlockedTemplate,
    ListOpen,
    Comment,
    Close,
    Sync,
    Over,
}

/// Where a landing stands.
#[verifier::ext_equal]
pub struct LandingState<S, L, Q> {
    pub input: LandingInput<S>,
    pub phase: LandingPhase,
    pub branch: S,
    pub head_sha: S,
    pub rebased_sha: S,
    pub base_url: S,
    pub git_url: S,
    pub merged_before: bool,
    pub pr_number: u64,
    pub pr_url: S,
    pub attempt: u32,
    pub short: S,
    pub error: S,
    pub reason: S,
    pub detail: S,
    pub lines: L,
    pub queue: Q,
}

/// Where a landing stands, at run time.
pub type Landing = LandingState<String, Vec<String>, Vec<u64>>;

/// What is to be done outside next.
#[verifier::ext_equal]
pub enum LandingAction<S, L> {
    /// `git status --porcelain --untracked-files=no`.
    GitStatus,
    /// `git rev-parse HEAD`.
    GitHead,
    /// `git rev-parse` of the reference.
    GitRevParse(S),
    /// Load the client config and open a client; answered with the base URL.
    OpenClient,
    /// List the pull requests in the given state.
    ListPulls(S),
    /// Ask the forge for the login of the token; answered with the login, or done where there is none.
    Whoami,
    /// `git rev-parse --short HEAD`.
    GitHeadShort,
    /// `git push` with the lease, where there is one.
    GitPush { url: S, refspec: S, lease: Option<S> },
    /// Open a pull request from the branch onto the base.
    CreatePull { title: S, body: S, head: S, base: S },
    /// Merge the pull request fast-forward at the commit, after a pause where one is asked for.
    MergePull { number: u64, sha: S, pause_sec: u64 },
    /// `git fetch` of the base.
    GitFetch { url: S, base: S },
    /// `git rebase FETCH_HEAD`.
    GitRebase,
    /// Abort the rebase and read the template below the working directory.
    AbortRebaseAndReadTemplate(S),
    /// Read the template below the working directory.
    ReadTemplate(S),
    /// Comment on the issue of the number.
    CommentIssue { number: u64, body: S },
    /// Close the issue of the number.
    CloseIssue(u64),
    /// Bring the principal's checkout up to date; answered with lines.
    SyncPrincipal { base: S, url: S },
    /// The landing is over.
    Finish(LandingEnd<S, L>),
}

/// An answer from outside.
#[verifier::ext_equal]
pub enum LandingReply<S, L, P> {
    Text(S),
    Done,
    Pulls(P),
    Pull { number: u64, url: S },
    Lines(L),
    /// The client config could not be loaded.
    ConfigFailed(S),
    /// The forge refused with a status.
    Http { status: u16, body: S, text: S },
    Failed(S),
}

/// The answers that fit a phase: a failure, and what the asked-for work gives.
pub open spec fn fits<S, L, P>(phase: LandingPhase, reply: LandingReply<S, L, P>) -> bool {
    match phase {
        LandingPhase::Status => reply is Text || reply is Failed,
        LandingPhase::Head => reply is Text || reply is Failed,
        LandingPhase::BaseHead => reply is Text || reply is Failed,
        LandingPhase::OpenClient => reply is Text || reply is Failed || reply is ConfigFailed,
        LandingPhase::ListFirst => reply is Pulls || reply is Failed,
        LandingPhase::Whoami => reply is Text || reply is Done || reply is Failed,
        LandingPhase::HeadShort => reply is Text || reply is Failed,
        LandingPhase::Push => reply is Done || reply is Failed,
        LandingPhase::ListSecond => reply is Pulls || reply is Failed,
        LandingPhase::Create => reply is Pull || reply is Failed,
        LandingPhase::Merge => reply is Done || reply is Failed || reply is Http,
        LandingPhase::Fetch => reply is Done || reply is Failed,
        LandingPhase::Rebase => reply is Done || reply is Failed,
        LandingPhase::ConflictTemplate => reply is Text || reply is Failed,
        LandingPhase::RebasedHead => reply is Text || reply is Failed,
        LandingPhase::RebasedShort => reply is Text || reply is Failed,
        LandingPhase::PushRebased => reply is Done || reply is Failed,
        LandingPhase::MergeRebased => reply is Done || reply is Failed || reply is Http,
        LandingPhase::Mergeable => reply is Pulls || reply is Failed,
        LandingPhase::BlockedTemplate => reply is Text || reply is Failed,
        LandingPhase::ListOpen => reply is Pulls || reply is Failed,
        LandingPhase::Comment => reply is Done || reply is Failed,
        LandingPhase::Close => reply is Done || reply is Failed,
        LandingPhase::Sync => reply is Lines,
        LandingPhase::Over => false,
    }
}

/// A landing in contracts.
pub type LandingSpec = LandingState<Seq<char>, Seq<Seq<char>>, Seq<u64>>;

/// An action in contracts.
pub type ActionSpec = LandingAction<Seq<char>, Seq<Seq<char>>>;

/// An answer in contracts.
pub type ReplySpec = LandingReply<Seq<char>, Seq<Seq<char>>, Seq<ApiPullRequest>>;

/// An end in contracts.
pub type EndSpec = LandingEnd<Seq<char>, Seq<Seq<char>>>;

/// The view of an end.
pub open spec fn end_view(e: LandingOutcome) -> EndSpec {
    match e {
        LandingEnd::NotRequired => LandingEnd::NotRequired,
        LandingEnd::Success(lines) => LandingEnd::Success(views(lines@)),
        LandingEnd::Blocked { reason_code, lines, comment } => LandingEnd::Blocked {
            reason_code: reason_code@,
            lines: views(lines@),
            comment: match comment {
                Some(c) => Some(
                    LandingComment {
                        delivery_kind: c.delivery_kind@,
                        dedupe_key: c.dedupe_key@,
                        body: c.body@,
                    },
                ),
                None => None,
            },
        },
        LandingEnd::Failure { reason_code, lines } => LandingEnd::Failure {
            reason_code: reason_code@,
            lines: views(lines@),
        },
    }
}

/// The view of an input.
pub open spec fn input_view(i: LandingInput<String>) -> LandingInput<Seq<char>> {
    LandingInput {
        dispatch_id: i.dispatch_id,
        directive: i.directive@,
        role_name: i.role_name@,
        issue_repo_owner: i.issue_repo_owner@,
        issue_repo_name: i.issue_repo_name@,
        issue_number: i.issue_number,
        issue_title: i.issue_title@,
        kind: i.kind@,
        repo_owner: i.repo_owner@,
        repo_name: i.repo_name@,
        git_remote: i.git_remote@,
        git_base: i.git_base@,
        git_branch: i.git_branch@,
        has_principal: i.has_principal,
    }
}

/// The view of a landing.
pub open spec fn landing_view(s: Landing) -> LandingSpec {
    LandingState {
        input: input_view(s.input),
        phase: s.phase,
        branch: s.branch@,
        head_sha: s.head_sha@,
        rebased_sha: s.rebased_sha@,
        base_url: s.base_url@,
        git_url: s.git_url@,
        merged_before: s.merged_before,
        pr_number: s.pr_number,
        pr_url: s.pr_url@,
        attempt: s.attempt,
        short: s.short@,
        error: s.error@,
        reason: s.reason@,
        detail: s.detail@,
        lines: views(s.lines@),
        queue: s.queue@,
    }
}

/// The view of an action.
pub open spec fn action_view(a: LandingAction<String, Vec<String>>) -> ActionSpec {
    match a {
        LandingAction::GitStatus => LandingAction::GitStatus,
        LandingAction::GitHead => LandingAction::GitHead,
        LandingAction::GitRevParse(x) => LandingAction::GitRevParse(x@),
        LandingAction::OpenClient => LandingAction::OpenClient,
        LandingAction::ListPulls(x) => LandingAction::ListPulls(x@),
        LandingAction::Whoami => LandingAction::Whoami,
        LandingAction::GitHeadShort => LandingAction::GitHeadShort,
        LandingAction::GitPush { url, refspec, lease } => LandingAction::GitPush {
            url: url@,
            refspec: refspec@,
            lease: crate::text::opt_view(lease),
        },
        LandingAction::CreatePull { title, body, head, base } => LandingAction::CreatePull {
            title: title@,
            body: body@,
            head: head@,
            base: base@,
        },
        LandingAction::MergePull { number, sha, pause_sec } => LandingAction::MergePull {
            number,
            sha: sha@,
            pause_sec,
        },
        LandingAction::GitFetch { url, base } => LandingAction::GitFetch { url: url@, base: base@ },
        LandingAction::GitRebase => LandingAction::GitRebase,
        LandingAction::AbortRebaseAndReadTemplate(
            x,
        ) => LandingAction::AbortRebaseAndReadTemplate(x@),
        LandingAction::ReadTemplate(x) => LandingAction::ReadTemplate(x@),
        LandingAction::CommentIssue { number, body } => LandingAction::CommentIssue {
            number,
            body: body@,
        },
        LandingAction::CloseIssue(n) => LandingAction::CloseIssue(n),
        LandingAction::SyncPrincipal { base, url } => LandingAction::SyncPrincipal {
            base: base@,
            url: url@,
        },
        LandingAction::Finish(e) => LandingAction::Finish(end_view(e)),
    }
}

/// The view of an answer.
pub open spec fn reply_view(
    r: LandingReply<String, Vec<String>, Vec<ApiPullRequest>>,
) -> ReplySpec {
    match r {
        LandingReply::Text(x) => LandingReply::Text(x@),
        LandingReply::Done => LandingReply::Done,
        LandingReply::Pulls(p) => LandingReply::Pulls(p@),
        LandingReply::Pull { number, url } => LandingReply::Pull { number, url: url@ },
        LandingReply::Lines(l) => LandingReply::Lines(views(l@)),
        LandingReply::ConfigFailed(x) => LandingReply::ConfigFailed(x@),
        LandingReply::Http { status, body, text } => LandingReply::Http {
            status,
            body: body@,
            text: text@,
        },
        LandingReply::Failed(x) => LandingReply::Failed(x@),
    }
}

/// The repository of the landing as a line begins with it.
pub open spec fn prefix(i: LandingInput<Seq<char>>) -> Seq<char> {
    "["@ + repo_full(i) + "] "@
}

/// The repository of the landing.
pub open spec fn repo_full(i: LandingInput<Seq<char>>) -> Seq<char> {
    i.repo_owner + "/"@ + i.repo_name
}

/// The issue of the dispatch.
pub open spec fn issue_full(i: LandingInput<Seq<char>>) -> Seq<char> {
    i.issue_repo_owner + "/"@ + i.issue_repo_name + "#"@ + decimal(i.issue_number as nat)
}

/// The mention that asks the role to try again; nothing for a role that is no agent.
pub open spec fn retry_mention(i: LandingInput<Seq<char>>) -> Seq<char> {
    if "codex"@.is_prefix_of(i.role_name) {
        "@"@ + i.role_name + " impl"@
    } else {
        Seq::empty()
    }
}

/// The landing ends in a failure with one line.
pub open spec fn failed(s: LandingSpec, code: Seq<char>, what: Seq<char>) -> (LandingSpec, ActionSpec) {
    (
        LandingState { phase: LandingPhase::Over, ..s },
        LandingAction::Finish(
            LandingEnd::Failure {
                reason_code: code,
                lines: seq![prefix(s.input) + ("pr landing failed: "@ + what)],
            },
        ),
    )
}

/// The key under which the comment of a blocked landing is sent once.
pub open spec fn block_key(i: LandingInput<Seq<char>>, code: Seq<char>) -> Seq<char> {
    "dispatch:"@ + decimal_int(i.dispatch_id as int) + ":"@ + i.kind + ":"@ + code
}

/// The landing ends blocked, with one line and a comment.
pub open spec fn blocked(s: LandingSpec, code: Seq<char>, what: Seq<char>, body: Seq<char>) -> (
    LandingSpec,
    ActionSpec,
) {
    (
        LandingState { phase: LandingPhase::Over, ..s },
        LandingAction::Finish(
            LandingEnd::Blocked {
                reason_code: code,
                lines: seq![prefix(s.input) + ("pr landing blocked: "@ + what)],
                comment: Some(
                    LandingComment {
                        delivery_kind: code,
                        dedupe_key: block_key(s.input, code),
                        body,
                    },
                ),
            },
        ),
    )
}

/// The landing ends well.
pub open spec fn succeeded(s: LandingSpec) -> (LandingSpec, ActionSpec) {
    (
        LandingState { phase: LandingPhase::Over, ..s },
        LandingAction::Finish(LandingEnd::Success(s.lines)),
    )
}

/// The landing waits for the answer to an action.
pub open spec fn waits(s: LandingSpec, phase: LandingPhase, action: ActionSpec) -> (
    LandingSpec,
    ActionSpec,
) {
    (LandingState { phase, ..s }, action)
}

/// The landing with one more line, which begins with the repository.
pub open spec fn noted(s: LandingSpec, what: Seq<char>) -> LandingSpec {
    LandingState { lines: s.lines.push(prefix(s.input) + what), ..s }
}

/// A pull request as lines show it.
pub open spec fn pr_mark(number: u64, url: Seq<char>) -> Seq<char> {
    "#"@ + decimal(number as nat) + " ("@ + url + ")"@
}

/// The first pull request of the branch, of the merged ones alone where so asked.
pub open spec fn first_pr(prs: Seq<ApiPullRequest>, branch: Seq<char>, merged_only: bool) -> Option<
    ApiPullRequest,
>
    decreases prs.len(),
{
    if prs.len() == 0 {
        None
    } else if prs[0].head.ref_name@ == branch && (prs[0].merged || !merged_only) {
        Some(prs[0])
    } else {
        first_pr(prs.drop_first(), branch, merged_only)
    }
}

/// The state in which a landing begins.
pub open spec fn fresh(input: LandingInput<Seq<char>>) -> LandingSpec {
    LandingState {
        input,
        phase: LandingPhase::Over,
        branch: trim(input.git_branch),
        head_sha: Seq::empty(),
        rebased_sha: Seq::empty(),
        base_url: Seq::empty(),
        git_url: Seq::empty(),
        merged_before: false,
        pr_number: 0,
        pr_url: Seq::empty(),
        attempt: 0,
        short: Seq::empty(),
        error: Seq::empty(),
        reason: Seq::empty(),
        detail: Seq::empty(),
        lines: Seq::empty(),
        queue: Seq::empty(),
    }
}

/// How a landing begins: nothing is landed but for the directive that changes code, and nothing
/// without a branch.
pub open spec fn begun(input: LandingInput<Seq<char>>) -> (LandingSpec, ActionSpec) {
    let s = fresh(input);
    if input.directive != DIRECTIVE_IMPL@ {
        (s, LandingAction::Finish(LandingEnd::NotRequired))
    } else if s.branch.len() == 0 {
        failed(s, "landing_missing_branch"@, "missing git branch name"@)
    } else {
        waits(s, LandingPhase::Status, LandingAction::GitStatus)
    }
}

/// The comment on a worktree with uncommitted changes.
pub open spec fn dirty_body(s: LandingSpec) -> Seq<char> {
    "PR landing blocked: worktree has uncommitted changes.\n- repo: `"@ + repo_full(s.input)
        + "`\n- branch: `"@ + s.branch + "`\n\nretry: "@ + retry_mention(s.input)
        + "\n\nhint: commit your changes (or discard them) and re-run.\n"@
}

/// After `git status`: a dirty worktree blocks.
pub open spec fn after_status(s: LandingSpec, reply: ReplySpec) -> (LandingSpec, ActionSpec) {
    match reply {
        LandingReply::Text(t) => if trim(t).len() > 0 {
            blocked(s, "worktree_dirty"@, "uncommitted changes in worktree"@, dirty_body(s))
        } else {
            waits(s, LandingPhase::Head, LandingAction::GitHead)
        },
        LandingReply::Failed(e) => failed(s, "landing_git_status_failed"@, e),
        _ => arbitrary(),
    }
}

/// After the head commit is known.
pub open spec fn after_head(s: LandingSpec, reply: ReplySpec) -> (LandingSpec, ActionSpec) {
    match reply {
        LandingReply::Text(t) => if trim(t).len() == 0 {
            failed(s, "landing_git_head_failed"@, "head sha was empty"@)
        } else {
            waits(
                LandingState { head_sha: trim(t), ..s },
                LandingPhase::BaseHead,
                LandingAction::GitRevParse(s.input.git_remote + "/"@ + s.input.git_base),
            )
        },
        LandingReply::Failed(e) => failed(s, "landing_git_head_failed"@, e),
        _ => arbitrary(),
    }
}

/// After the commit of the base is known, or is not: a branch that is at its base is done.
pub open spec fn after_base(s: LandingSpec, reply: ReplySpec) -> (LandingSpec, ActionSpec) {
    match reply {
        LandingReply::Text(t) => if trim(t) == s.head_sha {
            succeeded(noted(s, "pr landing: skipped (no changes)"@))
        } else {
            waits(s, LandingPhase::OpenClient, LandingAction::OpenClient)
        },
        _ => waits(s, LandingPhase::OpenClient, LandingAction::OpenClient),
    }
}

/// After the client is there.
pub open spec fn after_client(s: LandingSpec, reply: ReplySpec) -> (LandingSpec, ActionSpec) {
    match reply {
        LandingReply::Text(u) => waits(
            LandingState { base_url: u, ..s },
            LandingPhase::ListFirst,
            LandingAction::ListPulls("all"@),
        ),
        LandingReply::ConfigFailed(e) => failed(s, "landing_config_error"@, e),
        LandingReply::Failed(e) => failed(s, "landing_api_client_error"@, e),
        _ => arbitrary(),
    }
}

/// After the first list of pull requests: is the branch merged already?
pub open spec fn after_first_list(s: LandingSpec, reply: ReplySpec) -> (LandingSpec, ActionSpec) {
    match reply {
        LandingReply::Pulls(prs) => match first_pr(prs, s.branch, true) {
            Some(pr) => waits(
                LandingState {
                    merged_before: true,
                    pr_number: pr.number,
                    pr_url: pr.html_url@,
                    ..s
                },
                LandingPhase::Whoami,
                LandingAction::Whoami,
            ),
            None => waits(s, LandingPhase::Whoami, LandingAction::Whoami),
        },
        LandingReply::Failed(e) => failed(s, "landing_pr_list_failed"@, e),
        _ => arbitrary(),
    }
}

/// After the login is known: a branch that is merged already leaves only cleaning up.
pub open spec fn after_login(s: LandingSpec, reply: ReplySpec) -> (LandingSpec, ActionSpec) {
    match reply {
        LandingReply::Text(login) => match git_url_result(s.base_url, login, repo_full(s.input)) {
            Ok(u) => if s.merged_before {
                waits(
                    noted(
                        LandingState { git_url: u, ..s },
                        "pr landing: already merged "@ + pr_mark(s.pr_number, s.pr_url),
                    ),
                    LandingPhase::ListOpen,
                    LandingAction::ListPulls("open"@),
                )
            } else {
                waits(
                    LandingState { git_url: u, ..s },
                    LandingPhase::HeadShort,
                    LandingAction::GitHeadShort,
                )
            },
            Err(e) => failed(s, "landing_git_url_failed"@, e),
        },
        LandingReply::Done => failed(s, "landing_whoami_failed"@, "whoami missing login field"@),
        LandingReply::Failed(e) => failed(s, "landing_whoami_failed"@, "whoami failed: "@ + e),
        _ => arbitrary(),
    }
}

/// The short name of a commit: as git gives it, else its first twelve characters.
pub open spec fn short_of(reply: ReplySpec, sha: Seq<char>) -> Seq<char> {
    match reply {
        LandingReply::Text(t) => trim(t),
        _ => first_chars(sha, 12),
    }
}

/// The reference that a push updates.
pub open spec fn refspec(s: LandingSpec) -> Seq<char> {
    "HEAD:"@ + s.branch
}

/// After the short name of the head is known, or is not.
pub open spec fn after_head_short(s: LandingSpec, reply: ReplySpec) -> (LandingSpec, ActionSpec) {
    waits(
        LandingState { short: short_of(reply, s.head_sha), ..s },
        LandingPhase::Push,
        LandingAction::GitPush { url: s.git_url, refspec: refspec(s), lease: None },
    )
}

/// After the push.
pub open spec fn after_push(s: LandingSpec, reply: ReplySpec) -> (LandingSpec, ActionSpec) {
    match reply {
        LandingReply::Failed(e) => failed(s, "landing_git_push_failed"@, e),
        _ => waits(
            noted(
                s,
                "git_push: "@ + s.short + " -> "@ + s.branch + " ("@ + s.git_url + ")"@,
            ),
            LandingPhase::ListSecond,
            LandingAction::ListPulls("all"@),
        ),
    }
}

/// The first try to merge the pull request.
pub open spec fn merging(s: LandingSpec) -> (LandingSpec, ActionSpec) {
    waits(
        LandingState { attempt: 1, ..s },
        LandingPhase::Merge,
        LandingAction::MergePull { number: s.pr_number, sha: s.head_sha, pause_sec: 0 },
    )
}

/// After the second list of pull requests: the branch has one, or one is opened.
pub open spec fn after_second_list(s: LandingSpec, reply: ReplySpec) -> (LandingSpec, ActionSpec) {
    match reply {
        LandingReply::Pulls(prs) => match first_pr(prs, s.branch, false) {
            Some(pr) => merging(
                LandingState { pr_number: pr.number, pr_url: pr.html_url@, ..s },
            ),
            None => waits(
                s,
                LandingPhase::Create,
                LandingAction::CreatePull {
                    title: issue_full(s.input) + ": "@ + s.input.issue_title,
                    body: "Automated PR for "@ + issue_full(s.input) + "."@,
                    head: s.branch,
                    base: s.input.git_base,
                },
            ),
        },
        LandingReply::Failed(e) => failed(s, "landing_pr_list_failed"@, e),
        _ => arbitrary(),
    }
}

/// After a pull request was opened.
pub open spec fn after_create(s: LandingSpec, reply: ReplySpec) -> (LandingSpec, ActionSpec) {
    match reply {
        LandingReply::Pull { number, url } => merging(
            noted(
                LandingState { pr_number: number, pr_url: url, ..s },
                "pr_create: "@ + pr_mark(number, url),
            ),
        ),
        LandingReply::Failed(e) => failed(s, "landing_pr_create_failed"@, e),
        _ => arbitrary(),
    }
}

/// The merge is done: the pull requests that it supersedes come next.
pub open spec fn landed(s: LandingSpec) -> (LandingSpec, ActionSpec) {
    waits(
        noted(s, "pr_merge: ff-only "@ + pr_mark(s.pr_number, s.pr_url)),
        LandingPhase::ListOpen,
        LandingAction::ListPulls("open"@),
    )
}

/// How often the first merge is tried.
pub const MAX_MERGE_ATTEMPTS: u32 = 3;

/// How long a retry of the merge waits, in seconds.
pub const MERGE_RETRY_PAUSE_SEC: u64 = 10;

/// Another try to merge, with a line that says why.
pub open spec fn merging_again(s: LandingSpec, why: Seq<char>, status: u16) -> (
    LandingSpec,
    ActionSpec,
) {
    waits(
        LandingState {
            lines: s.lines.push(
                why + decimal(status as nat) + " attempt="@ + decimal(s.attempt as nat) + "/"@
                    + decimal(MAX_MERGE_ATTEMPTS as nat),
            ),
            attempt: (s.attempt + 1) as u32,
            ..s
        },
        LandingPhase::Merge,
        LandingAction::MergePull {
            number: s.pr_number,
            sha: s.head_sha,
            pause_sec: MERGE_RETRY_PAUSE_SEC,
        },
    )
}

/// A refusal of the merge that a rebase may mend.
pub open spec fn rebase_may_help(status: u16, body: Seq<char>) -> bool {
    status == 409 || status == 423 || status >= 500 || try_again_later(status, body)
}

/// After a try to merge: landed, tried again, mended by a rebase, or failed.
pub open spec fn after_merge(s: LandingSpec, reply: ReplySpec) -> (LandingSpec, ActionSpec) {
    match reply {
        LandingReply::Done => landed(s),
        LandingReply::Failed(e) => failed(s, "landing_pr_merge_failed"@, e),
        LandingReply::Http { status, body, text } => if s.attempt < MAX_MERGE_ATTEMPTS && status
            >= 500 {
            merging_again(s, "pr_merge_retry: transient server error status="@, status)
        } else if s.attempt < MAX_MERGE_ATTEMPTS && try_again_later(status, body) {
            merging_again(s, "pr_merge_retry: mergeability not ready status="@, status)
        } else if rebase_may_help(status, body) {
            waits(
                noted(
                    s,
                    "pr_merge_retry: status="@ + decimal(status as nat) + " attempting rebase"@,
                ),
                LandingPhase::Fetch,
                LandingAction::GitFetch { url: s.git_url, base: s.input.git_base },
            )
        } else {
            failed(s, "landing_pr_merge_failed"@, text)
        },
        _ => arbitrary(),
    }
}

/// After the base was fetched.
pub open spec fn after_fetch(s: LandingSpec, reply: ReplySpec) -> (LandingSpec, ActionSpec) {
    match reply {
        LandingReply::Failed(e) => failed(s, "landing_git_fetch_failed"@, e),
        _ => waits(s, LandingPhase::Rebase, LandingAction::GitRebase),
    }
}

/// After the rebase: a conflict blocks.
pub open spec fn after_rebase(s: LandingSpec, reply: ReplySpec) -> (LandingSpec, ActionSpec) {
    match reply {
        LandingReply::Failed(e) => waits(
            LandingState { error: e, ..s },
            LandingPhase::ConflictTemplate,
            LandingAction::AbortRebaseAndReadTemplate(CONFLICT_TEMPLATE@),
        ),
        _ => waits(s, LandingPhase::RebasedHead, LandingAction::GitHead),
    }
}

/// The template of the comment on a rebase conflict, below the working directory.
pub const CONFLICT_TEMPLATE: &'static str = "templates/orchd-landing-pr-rebase-conflict.md";

/// The template of the comment on a blocked merge, below the working directory.
pub const BLOCKED_TEMPLATE: &'static str = "templates/orchd-landing-pr-merge-blocked.md";

/// The values of a comment's template.
pub open spec fn comment_values(s: LandingSpec, error: Seq<char>) -> Seq<(Seq<char>, Seq<char>)> {
    seq![
        ("pr_url"@, s.pr_url),
        ("branch"@, s.branch),
        ("base_branch"@, s.input.git_base),
        ("retry_mention"@, retry_mention(s.input)),
        ("error"@, error),
    ]
}

/// The comment where its template cannot be had.
pub open spec fn plain_body(s: LandingSpec, head: Seq<char>, template_error: Seq<char>) -> Seq<char> {
    head + "\n- PR: "@ + s.pr_url + "\n- branch: `"@ + s.branch + "` (base `"@ + s.input.git_base
        + "`)\n\nretry: "@ + retry_mention(s.input) + "\n\nerror: "@ + s.error
        + "\n(template error: "@ + template_error + ")\n"@
}

/// The comment from its template as far as that was read and renders.
pub open spec fn comment_body(
    s: LandingSpec,
    reply: ReplySpec,
    error: Seq<char>,
    head: Seq<char>,
) -> Seq<char> {
    match reply {
        LandingReply::Text(t) => match rendered(t, comment_values(s, error)) {
            Ok(body) => body,
            Err(m) => plain_body(s, head, "prompt template failure: "@ + m),
        },
        LandingReply::Failed(e) => plain_body(s, head, e),
        _ => arbitrary(),
    }
}

/// After the template of the conflict comment was read, or was not.
pub open spec fn after_conflict(s: LandingSpec, reply: ReplySpec) -> (LandingSpec, ActionSpec) {
    blocked(
        s,
        "pr_rebase_conflict"@,
        "rebase conflict: "@ + s.error,
        comment_body(s, reply, s.error, "PR landing blocked (rebase conflicts)."@),
    )
}

/// After the rebased head is known.
pub open spec fn after_rebased_head(s: LandingSpec, reply: ReplySpec) -> (LandingSpec, ActionSpec) {
    match reply {
        LandingReply::Text(t) => if trim(t).len() == 0 {
            failed(s, "landing_git_head_failed"@, "rebased head sha was empty"@)
        } else {
            waits(
                LandingState { rebased_sha: trim(t), ..s },
                LandingPhase::RebasedShort,
                LandingAction::GitHeadShort,
            )
        },
        LandingReply::Failed(e) => failed(s, "landing_git_head_failed"@, e),
        _ => arbitrary(),
    }
}

/// The lease of the push after a rebase: the branch must still be where it was before.
pub open spec fn lease(s: LandingSpec) -> Seq<char> {
    "--force-with-lease=refs/heads/"@ + s.branch + ":"@ + s.head_sha
}

/// After the short name of the rebased head is known, or is not.
pub open spec fn after_rebased_short(s: LandingSpec, reply: ReplySpec) -> (LandingSpec, ActionSpec) {
    waits(
        LandingState { short: short_of(reply, s.rebased_sha), ..s },
        LandingPhase::PushRebased,
        LandingAction::GitPush { url: s.git_url, refspec: refspec(s), lease: Some(lease(s)) },
    )
}

/// After the rebased branch was pushed.
pub open spec fn after_rebased_push(s: LandingSpec, reply: ReplySpec) -> (LandingSpec, ActionSpec) {
    match reply {
        LandingReply::Failed(e) => failed(s, "landing_git_push_failed"@, e),
        _ => waits(
            noted(s, "git_rebase: now at "@ + s.short),
            LandingPhase::MergeRebased,
            LandingAction::MergePull { number: s.pr_number, sha: s.rebased_sha, pause_sec: 0 },
        ),
    }
}

/// A merge that stays refused, with what is known of the pull request's mergeability.
pub open spec fn refused(s: LandingSpec, error: Seq<char>, mergeable: Option<bool>) -> (
    LandingSpec,
    ActionSpec,
) {
    waits(
        LandingState {
            error,
            reason: merge_block(mergeable).0,
            detail: merge_block(mergeable).1,
            ..s
        },
        LandingPhase::BlockedTemplate,
        LandingAction::ReadTemplate(BLOCKED_TEMPLATE@),
    )
}

/// After the try to merge the rebased branch.
pub open spec fn after_rebased_merge(s: LandingSpec, reply: ReplySpec) -> (LandingSpec, ActionSpec) {
    match reply {
        LandingReply::Done => landed(s),
        LandingReply::Failed(e) => refused(s, e, None),
        LandingReply::Http { status, body, text } => if try_again_later(status, body) {
            waits(
                LandingState { error: text, ..s },
                LandingPhase::Mergeable,
                LandingAction::ListPulls("open"@),
            )
        } else {
            refused(s, text, None)
        },
        _ => arbitrary(),
    }
}

/// After the list of open pull requests in which the mergeability of this one is looked up.
pub open spec fn after_mergeable(s: LandingSpec, reply: ReplySpec) -> (LandingSpec, ActionSpec) {
    match reply {
        LandingReply::Pulls(prs) => refused(s, s.error, mergeability(prs, s.pr_number)),
        _ => refused(s, s.error, None),
    }
}

/// The error that the comment on a blocked merge tells.
pub open spec fn blocked_error(s: LandingSpec) -> Seq<char> {
    if s.reason == "pr_not_mergeable"@ {
        s.detail + "\n\nraw error: "@ + s.error
    } else {
        s.error
    }
}

/// After the template of the comment on a blocked merge was read, or was not.
pub open spec fn after_blocked(s: LandingSpec, reply: ReplySpec) -> (LandingSpec, ActionSpec) {
    blocked(
        s,
        s.reason,
        s.detail + ": "@ + s.error,
        comment_body(
            s,
            reply,
            blocked_error(s),
            "PR landing blocked: merge still not possible after rebase."@,
        ),
    )
}

/// The superseded pull requests are seen to: the principal's checkout comes next, where there is one.
pub open spec fn settled(s: LandingSpec) -> (LandingSpec, ActionSpec) {
    if s.input.has_principal {
        waits(
            s,
            LandingPhase::Sync,
            LandingAction::SyncPrincipal { base: s.input.git_base, url: s.git_url },
        )
    } else {
        succeeded(s)
    }
}

/// The next superseded pull request, where one is left.
pub open spec fn superseding(s: LandingSpec) -> (LandingSpec, ActionSpec) {
    if s.queue.len() == 0 {
        settled(s)
    } else {
        waits(
            s,
            LandingPhase::Comment,
            LandingAction::CommentIssue {
                number: s.queue[0],
                body: "Superseded by "@ + pr_mark(s.pr_number, s.pr_url)
                    + " after successful re-dispatch; closing."@,
            },
        )
    }
}

/// The numbers of pull requests.
pub open spec fn numbers(prs: Seq<ApiPullRequest>) -> Seq<u64> {
    prs.map_values(|pr: ApiPullRequest| pr.number)
}

/// After the list of open pull requests.
pub open spec fn after_open_list(s: LandingSpec, reply: ReplySpec) -> (LandingSpec, ActionSpec) {
    match reply {
        LandingReply::Pulls(prs) => superseding(
            LandingState {
                queue: numbers(
                    candidates(prs, issue_full(s.input), s.input.issue_number, s.pr_number),
                ),
                ..s
            },
        ),
        LandingReply::Failed(e) => settled(
            noted(
                s,
                "pr_supersede_scan_failed: listing open PRs for superseded reconciliation failed: "@
                    + e,
            ),
        ),
        _ => arbitrary(),
    }
}

/// What a line says of a step on a superseded pull request.
pub open spec fn supersede_note(s: LandingSpec, step: Seq<char>, reply: ReplySpec) -> Seq<char> {
    match reply {
        LandingReply::Failed(e) => "pr_supersede_"@ + step + "_failed: #"@ + decimal(
            s.queue[0] as nat,
        ) + ": "@ + e,
        _ => "pr_supersede_"@ + step + ": #"@ + decimal(s.queue[0] as nat) + " -> "@ + pr_mark(
            s.pr_number,
            s.pr_url,
        ),
    }
}

/// After the comment on a superseded pull request: it is closed either way.
pub open spec fn after_comment(s: LandingSpec, reply: ReplySpec) -> (LandingSpec, ActionSpec) {
    waits(
        noted(s, supersede_note(s, "comment"@, reply)),
        LandingPhase::Close,
        LandingAction::CloseIssue(s.queue[0]),
    )
}

/// After a superseded pull request was closed, or was not.
pub open spec fn after_close(s: LandingSpec, reply: ReplySpec) -> (LandingSpec, ActionSpec) {
    superseding(
        LandingState {
            queue: s.queue.drop_first(),
            ..noted(s, supersede_note(s, "close"@, reply))
        },
    )
}

/// After the principal's checkout was seen to.
pub open spec fn after_sync(s: LandingSpec, reply: ReplySpec) -> (LandingSpec, ActionSpec) {
    match reply {
        LandingReply::Lines(l) => succeeded(LandingState { lines: s.lines + l, ..s }),
        _ => succeeded(s),
    }
}

/// How a landing goes on from an answer.
pub open spec fn next(s: LandingSpec, reply: ReplySpec) -> (LandingSpec, ActionSpec) {
    match s.phase {
        LandingPhase::Status => after_status(s, reply),
        LandingPhase::Head => after_head(s, reply),
        LandingPhase::BaseHead => after_base(s, reply),
        LandingPhase::OpenClient => after_client(s, reply),
        LandingPhase::ListFirst => after_first_list(s, reply),
        LandingPhase::Whoami => after_login(s, reply),
        LandingPhase::HeadShort => after_head_short(s, reply),
        LandingPhase::Push => after_push(s, reply),
        LandingPhase::ListSecond => after_second_list(s, reply),
        LandingPhase::Create => after_create(s, reply),
        LandingPhase::Merge => after_merge(s, reply),
        LandingPhase::Fetch => after_fetch(s, reply),
        LandingPhase::Rebase => after_rebase(s, reply),
        LandingPhase::ConflictTemplate => after_conflict(s, reply),
        LandingPhase::RebasedHead => after_rebased_head(s, reply),
        LandingPhase::RebasedShort => after_rebased_short(s, reply),
        LandingPhase::PushRebased => after_rebased_push(s, reply),
        LandingPhase::MergeRebased => after_rebased_merge(s, reply),
        LandingPhase::Mergeable => after_mergeable(s, reply),
        LandingPhase::BlockedTemplate => after_blocked(s, reply),
        LandingPhase::ListOpen => after_open_list(s, reply),
        LandingPhase::Comment => after_comment(s, reply),
        LandingPhase::Close => after_close(s, reply),
        LandingPhase::Sync => after_sync(s, reply),
        LandingPhase::Over => succeeded(s),
    }
}

/// A landing that waits for an answer about a superseded pull request has one at hand.
pub open spec fn consistent(s: LandingSpec) -> bool {
    &&& (s.phase == LandingPhase::Comment || s.phase == LandingPhase::Close) ==> s.queue.len() > 0
    &&& s.attempt <= MAX_MERGE_ATTEMPTS
}

/// What a landing hands back: where it stands and what is to be done next.
pub type LandingStep = (Landing, LandingAction<String, Vec<String>>);

/// The view of a step.
pub open spec fn step_view(r: LandingStep) -> (LandingSpec, ActionSpec) {
    (landing_view(r.0), action_view(r.1))
}

/// One line.
fn one_line(line: String) -> (r: Vec<String>)
    ensures
        views(r@) == seq![line@],
{
    let mut v: Vec<String> = Vec::new();
    v.push(line);
    proof {
        assert(views(v@) =~= seq![line@]);
    }
    v
}

impl LandingInput<String> {
    /// The repository of the landing.
    fn repo_full(&self) -> (r: String)
        ensures
            r@ == repo_full(input_view(*self)),
    {
        cat3(self.repo_owner.as_str(), "/", self.repo_name.as_str())
    }

    /// The repository of the landing as a line begins with it.
    fn prefix(&self) -> (r: String)
        ensures
            r@ == prefix(input_view(*self)),
    {
        cat3("[", self.repo_full().as_str(), "] ")
    }

    /// The issue of the dispatch.
    fn issue_full(&self) -> (r: String)
        ensures
            r@ == issue_full(input_view(*self)),
    {
        let n = u64_text(self.issue_number);
        cat5(
            self.issue_repo_owner.as_str(),
            "/",
            self.issue_repo_name.as_str(),
            "#",
            n.as_str(),
        )
    }

    /// The mention that asks the role to try again.
    fn retry_mention(&self) -> (r: String)
        ensures
            r@ == retry_mention(input_view(*self)),
    {
        if str_starts_with(self.role_name.as_str(), "codex") {
            cat3("@", self.role_name.as_str(), " impl")
        } else {
            String::new()
        }
    }

    /// The key under which the comment of a blocked landing is sent once.
    fn block_key(&self, code: &str) -> (r: String)
        ensures
            r@ == block_key(input_view(*self), code@),
    {
        let n = i64_text(self.dispatch_id);
        cat6("dispatch:", n.as_str(), ":", self.kind.as_str(), ":", code)
    }
}

/// A pull request as lines show it.
fn mark_of(number: u64, url: &str) -> (r: String)
    ensures
        r@ == pr_mark(number, url@),
{
    let n = u64_text(number);
    cat5("#", n.as_str(), " (", url, ")")
}

impl LandingState<String, Vec<String>, Vec<u64>> {
    /// The landing ends in a failure with one line.
    fn fail(self, code: &str, what: &str) -> (r: LandingStep)
        ensures
            step_view(r) == failed(landing_view(self), code@, what@),
    {
        let mut s = self;
        let p = s.input.prefix();
        let tail = cat2("pr landing failed: ", what);
        let lines = one_line(cat2(p.as_str(), tail.as_str()));
        s.phase = LandingPhase::Over;
        let end = LandingEnd::Failure { reason_code: code.to_owned(), lines };
        (s, LandingAction::Finish(end))
    }

    /// The landing ends blocked, with one line and a comment.
    fn block(self, code: &str, what: &str, body: String) -> (r: LandingStep)
        ensures
            step_view(r) == blocked(landing_view(self), code@, what@, body@),
    {
        let mut s = self;
        let p = s.input.prefix();
        let tail = cat2("pr landing blocked: ", what);
        let lines = one_line(cat2(p.as_str(), tail.as_str()));
        let dedupe_key = s.input.block_key(code);
        s.phase = LandingPhase::Over;
        let comment = Some(LandingComment { delivery_kind: code.to_owned(), dedupe_key, body });
        let end = LandingEnd::Blocked { reason_code: code.to_owned(), lines, comment };
        (s, LandingAction::Finish(end))
    }

    /// The landing ends well.
    fn succeed(self) -> (r: LandingStep)
        ensures
            step_view(r) == succeeded(landing_view(self)),
    {
        let mut s = self;
        s.phase = LandingPhase::Over;
        let lines = clone_list(&s.lines);
        (s, LandingAction::Finish(LandingEnd::Success(lines)))
    }

    /// The landing waits for the answer to an action.
    fn wait(self, phase: LandingPhase, action: LandingAction<String, Vec<String>>) -> (r:
        LandingStep)
        ensures
            step_view(r) == waits(landing_view(self), phase, action_view(action)),
    {
        let mut s = self;
        s.phase = phase;
        (s, action)
    }

    /// The landing with one more line, which begins with the repository.
    fn note(self, what: &str) -> (r: Landing)
        ensures
            landing_view(r) == noted(landing_view(self), what@),
    {
        let mut s = self;
        let line = cat2(s.input.prefix().as_str(), what);
        add_text(&mut s.lines, line);
        s
    }
}

/// The first pull request of the branch, of the merged ones alone where so asked.
fn find_pr(prs: &Vec<ApiPullRequest>, branch: &str, merged_only: bool) -> (r: Option<(u64, String)>)
    ensures
        match first_pr(prs@, branch@, merged_only) {
            Some(pr) => r matches Some(x) && x.0 == pr.number && x.1@ == pr.html_url@,
            None => r is None,
        },
{
    let mut i: usize = 0;
    proof {
        assert(prs@.skip(0) =~= prs@);
    }
    while i < prs.len()
        invariant
            i <= prs@.len(),
            first_pr(prs@, branch@, merged_only) == first_pr(
                prs@.skip(i as int),
                branch@,
                merged_only,
            ),
        decreases prs.len() - i,
    {
        let pr = &prs[i];
        proof {
            assert(prs@.skip(i as int)[0] == prs@[i as int]);
            assert(prs@.skip(i as int).drop_first() =~= prs@.skip(i + 1));
        }
        if str_eq(pr.head.ref_name.as_str(), branch) && (pr.merged || !merged_only) {
            return Some((pr.number, pr.html_url.clone()));
        }
        i = i + 1;
    }
    None
}

/// Begins a landing.
pub fn begin_landing(input: LandingInput<String>) -> (r: LandingStep)
    ensures
        step_view(r) == begun(input_view(input)),
        consistent(landing_view(r.0)),
{
    let branch = str_trim(input.git_branch.as_str()).to_owned();
    let s = LandingState {
        input,
        phase: LandingPhase::Over,
        branch,
        head_sha: String::new(),
        rebased_sha: String::new(),
        base_url: String::new(),
        git_url: String::new(),
        merged_before: false,
        pr_number: 0,
        pr_url: String::new(),
        attempt: 0,
        short: String::new(),
        error: String::new(),
        reason: String::new(),
        detail: String::new(),
        lines: Vec::new(),
        queue: Vec::new(),
    };
    proof {
        assert(views(s.lines@) =~= Seq::<Seq<char>>::empty());
        assert(landing_view(s) =~= fresh(input_view(input)));
    }
    if !str_eq(s.input.directive.as_str(), DIRECTIVE_IMPL) {
        return (s, LandingAction::Finish(LandingEnd::NotRequired));
    }
    if s.branch.as_str().is_empty() {
        return s.fail("landing_missing_branch", "missing git branch name");
    }
    s.wait(LandingPhase::Status, LandingAction::GitStatus)
}

/// An answer at run time.
pub type Reply = LandingReply<String, Vec<String>, Vec<ApiPullRequest>>;

/// After `git status`.
fn on_status(s: Landing, reply: Reply) -> (r: LandingStep)
    requires
        fits(LandingPhase::Status, reply),
    ensures
        step_view(r) == after_status(landing_view(s), reply_view(reply)),
{
    match reply {
        LandingReply::Text(t) => {
            if !str_trim(t.as_str()).is_empty() {
                let repo = s.input.repo_full();
                let retry = s.input.retry_mention();
                let body = cat7(
                    "PR landing blocked: worktree has uncommitted changes.\n- repo: `",
                    repo.as_str(),
                    "`\n- branch: `",
                    s.branch.as_str(),
                    "`\n\nretry: ",
                    retry.as_str(),
                    "\n\nhint: commit your changes (or discard them) and re-run.\n",
                );
                s.block("worktree_dirty", "uncommitted changes in worktree", body)
            } else {
                s.wait(LandingPhase::Head, LandingAction::GitHead)
            }
        },
        LandingReply::Failed(e) => s.fail("landing_git_status_failed", e.as_str()),
        _ => s.succeed(),
    }
}

/// After the head commit is known.
fn on_head(s: Landing, reply: Reply) -> (r: LandingStep)
    requires
        fits(LandingPhase::Head, reply),
    ensures
        step_view(r) == after_head(landing_view(s), reply_view(reply)),
{
    match reply {
        LandingReply::Text(t) => {
            let sha = str_trim(t.as_str());
            if sha.is_empty() {
                s.fail("landing_git_head_failed", "head sha was empty")
            } else {
                let mut s = s;
                s.head_sha = sha.to_owned();
                let base = cat3(s.input.git_remote.as_str(), "/", s.input.git_base.as_str());
                s.wait(LandingPhase::BaseHead, LandingAction::GitRevParse(base))
            }
        },
        LandingReply::Failed(e) => s.fail("landing_git_head_failed", e.as_str()),
        _ => s.succeed(),
    }
}

/// After the commit of the base is known, or is not.
fn on_base(s: Landing, reply: Reply) -> (r: LandingStep)
    requires
        fits(LandingPhase::BaseHead, reply),
    ensures
        step_view(r) == after_base(landing_view(s), reply_view(reply)),
{
    if let LandingReply::Text(t) = reply {
        if str_eq(str_trim(t.as_str()), s.head_sha.as_str()) {
            return s.note("pr landing: skipped (no changes)").succeed();
        }
    }
    s.wait(LandingPhase::OpenClient, LandingAction::OpenClient)
}

/// After the client is there.
fn on_client(s: Landing, reply: Reply) -> (r: LandingStep)
    requires
        fits(LandingPhase::OpenClient, reply),
    ensures
        step_view(r) == after_client(landing_view(s), reply_view(reply)),
{
    match reply {
        LandingReply::Text(u) => {
            let mut s = s;
            s.base_url = u;
            s.wait(LandingPhase::ListFirst, LandingAction::ListPulls("all".to_owned()))
        },
        LandingReply::ConfigFailed(e) => s.fail("landing_config_error", e.as_str()),
        LandingReply::Failed(e) => s.fail("landing_api_client_error", e.as_str()),
        _ => s.succeed(),
    }
}

/// After the first list of pull requests.
fn on_first_list(s: Landing, reply: Reply) -> (r: LandingStep)
    requires
        fits(LandingPhase::ListFirst, reply),
    ensures
        step_view(r) == after_first_list(landing_view(s), reply_view(reply)),
{
    match reply {
        LandingReply::Pulls(prs) => {
            let mut s = s;
            if let Some((number, url)) = find_pr(&prs, s.branch.as_str(), true) {
                s.merged_before = true;
                s.pr_number = number;
                s.pr_url = url;
            }
            s.wait(LandingPhase::Whoami, LandingAction::Whoami)
        },
        LandingReply::Failed(e) => s.fail("landing_pr_list_failed", e.as_str()),
        _ => s.succeed(),
    }
}

/// After the login is known.
fn on_login(s: Landing, reply: Reply) -> (r: LandingStep)
    requires
        fits(LandingPhase::Whoami, reply),
    ensures
        step_view(r) == after_login(landing_view(s), reply_view(reply)),
{
    match reply {
        LandingReply::Text(login) => {
            let repo = s.input.repo_full();
            match forgejo_http_git_url(s.base_url.as_str(), login.as_str(), repo.as_str()) {
                Ok(u) => {
                    let mut s = s;
                    s.git_url = u;
                    if s.merged_before {
                        let m = mark_of(s.pr_number, s.pr_url.as_str());
                        let line = cat2("pr landing: already merged ", m.as_str());
                        s.note(line.as_str()).wait(
                            LandingPhase::ListOpen,
                            LandingAction::ListPulls("open".to_owned()),
                        )
                    } else {
                        s.wait(LandingPhase::HeadShort, LandingAction::GitHeadShort)
                    }
                },
                Err(e) => {
                    let m = e.message();
                    s.fail("landing_git_url_failed", m.as_str())
                },
            }
        },
        LandingReply::Done => s.fail("landing_whoami_failed", "whoami missing login field"),
        LandingReply::Failed(e) => {
            let m = cat2("whoami failed: ", e.as_str());
            s.fail("landing_whoami_failed", m.as_str())
        },
        _ => s.succeed(),
    }
}

/// The short name of a commit: as git gives it, else its first twelve characters.
fn short_name(reply: &Reply, sha: &str) -> (r: String)
    ensures
        r@ == short_of(reply_view(*reply), sha@),
{
    match reply {
        LandingReply::Text(t) => str_trim(t.as_str()).to_owned(),
        _ => str_first_chars(sha, 12),
    }
}

/// After the short name of the head is known, or is not.
fn on_head_short(s: Landing, reply: Reply) -> (r: LandingStep)
    requires
        fits(LandingPhase::HeadShort, reply),
    ensures
        step_view(r) == after_head_short(landing_view(s), reply_view(reply)),
{
    let mut s = s;
    s.short = short_name(&reply, s.head_sha.as_str());
    let url = s.git_url.clone();
    let refspec = cat2("HEAD:", s.branch.as_str());
    s.wait(LandingPhase::Push, LandingAction::GitPush { url, refspec, lease: None })
}

/// After the push.
fn on_push(s: Landing, reply: Reply) -> (r: LandingStep)
    requires
        fits(LandingPhase::Push, reply),
    ensures
        step_view(r) == after_push(landing_view(s), reply_view(reply)),
{
    match reply {
        LandingReply::Failed(e) => s.fail("landing_git_push_failed", e.as_str()),
        _ => {
            let line = cat7(
                "git_push: ",
                s.short.as_str(),
                " -> ",
                s.branch.as_str(),
                " (",
                s.git_url.as_str(),
                ")",
            );
            s.note(line.as_str()).wait(
                LandingPhase::ListSecond,
                LandingAction::ListPulls("all".to_owned()),
            )
        },
    }
}

/// The first try to merge the pull request.
fn merge_first(s: Landing) -> (r: LandingStep)
    ensures
        step_view(r) == merging(landing_view(s)),
{
    let mut s = s;
    s.attempt = 1;
    let number: u64 = s.pr_number;
    let sha = s.head_sha.clone();
    s.wait(LandingPhase::Merge, LandingAction::MergePull { number, sha, pause_sec: 0 })
}

/// After the second list of pull requests.
fn on_second_list(s: Landing, reply: Reply) -> (r: LandingStep)
    requires
        fits(LandingPhase::ListSecond, reply),
    ensures
        step_view(r) == after_second_list(landing_view(s), reply_view(reply)),
{
    match reply {
        LandingReply::Pulls(prs) => {
            if let Some((number, url)) = find_pr(&prs, s.branch.as_str(), false) {
                let mut s = s;
                s.pr_number = number;
                s.pr_url = url;
                return merge_first(s);
            }
            let issue = s.input.issue_full();
            let title = cat3(issue.as_str(), ": ", s.input.issue_title.as_str());
            let body = cat3("Automated PR for ", issue.as_str(), ".");
            let head = s.branch.clone();
            let base = s.input.git_base.clone();
            s.wait(LandingPhase::Create, LandingAction::CreatePull { title, body, head, base })
        },
        LandingReply::Failed(e) => s.fail("landing_pr_list_failed", e.as_str()),
        _ => s.succeed(),
    }
}

/// After a pull request was opened.
fn on_create(s: Landing, reply: Reply) -> (r: LandingStep)
    requires
        fits(LandingPhase::Create, reply),
    ensures
        step_view(r) == after_create(landing_view(s), reply_view(reply)),
{
    match reply {
        LandingReply::Pull { number, url } => {
            let m = mark_of(number, url.as_str());
            let line = cat2("pr_create: ", m.as_str());
            let mut s = s;
            s.pr_number = number;
            s.pr_url = url;
            merge_first(s.note(line.as_str()))
        },
        LandingReply::Failed(e) => s.fail("landing_pr_create_failed", e.as_str()),
        _ => s.succeed(),
    }
}

/// The merge is done.
fn land(s: Landing) -> (r: LandingStep)
    ensures
        step_view(r) == landed(landing_view(s)),
{
    let m = mark_of(s.pr_number, s.pr_url.as_str());
    let line = cat2("pr_merge: ff-only ", m.as_str());
    s.note(line.as_str()).wait(LandingPhase::ListOpen, LandingAction::ListPulls("open".to_owned()))
}

/// Another try to merge, with a line that says why.
fn merge_again(s: Landing, why: &str, status: u16) -> (r: LandingStep)
    requires
        s.attempt < MAX_MERGE_ATTEMPTS,
    ensures
        step_view(r) == merging_again(landing_view(s), why@, status),
{
    let code = u64_text(status as u64);
    let at = u64_text(s.attempt as u64);
    let of = u64_text(MAX_MERGE_ATTEMPTS as u64);
    let line = cat6(why, code.as_str(), " attempt=", at.as_str(), "/", of.as_str());
    let mut s = s;
    add_text(&mut s.lines, line);
    s.attempt = s.attempt + 1;
    let number: u64 = s.pr_number;
    let sha = s.head_sha.clone();
    let pause_sec: u64 = MERGE_RETRY_PAUSE_SEC;
    s.wait(LandingPhase::Merge, LandingAction::MergePull { number, sha, pause_sec })
}

/// The forge asks to try the merge again later.
fn try_later(status: u16, body: &str) -> (r: bool)
    ensures
        r == try_again_later(status, body@),
{
    status == 405 && str_contains(body, "Please try again later")
}

/// After a try to merge.
fn on_merge(s: Landing, reply: Reply) -> (r: LandingStep)
    requires
        fits(LandingPhase::Merge, reply),
    ensures
        step_view(r) == after_merge(landing_view(s), reply_view(reply)),
{
    match reply {
        LandingReply::Done => land(s),
        LandingReply::Failed(e) => s.fail("landing_pr_merge_failed", e.as_str()),
        LandingReply::Http { status, body, text } => {
            let later = try_later(status, body.as_str());
            if s.attempt < MAX_MERGE_ATTEMPTS && status >= 500 {
                merge_again(s, "pr_merge_retry: transient server error status=", status)
            } else if s.attempt < MAX_MERGE_ATTEMPTS && later {
                merge_again(s, "pr_merge_retry: mergeability not ready status=", status)
            } else if status == 409 || status == 423 || status >= 500 || later {
                let code = u64_text(status as u64);
                let line = cat3("pr_merge_retry: status=", code.as_str(), " attempting rebase");
                let url = s.git_url.clone();
                let base = s.input.git_base.clone();
                s.note(line.as_str()).wait(
                    LandingPhase::Fetch,
                    LandingAction::GitFetch { url, base },
                )
            } else {
                s.fail("landing_pr_merge_failed", text.as_str())
            }
        },
        _ => s.succeed(),
    }
}

/// After the base was fetched.
fn on_fetch(s: Landing, reply: Reply) -> (r: LandingStep)
    requires
        fits(LandingPhase::Fetch, reply),
    ensures
        step_view(r) == after_fetch(landing_view(s), reply_view(reply)),
{
    match reply {
        LandingReply::Failed(e) => s.fail("landing_git_fetch_failed", e.as_str()),
        _ => s.wait(LandingPhase::Rebase, LandingAction::GitRebase),
    }
}

/// After the rebase.
fn on_rebase(s: Landing, reply: Reply) -> (r: LandingStep)
    requires
        fits(LandingPhase::Rebase, reply),
    ensures
        step_view(r) == after_rebase(landing_view(s), reply_view(reply)),
{
    match reply {
        LandingReply::Failed(e) => {
            let mut s = s;
            s.error = e;
            s.wait(
                LandingPhase::ConflictTemplate,
                LandingAction::AbortRebaseAndReadTemplate(CONFLICT_TEMPLATE.to_owned()),
            )
        },
        _ => s.wait(LandingPhase::RebasedHead, LandingAction::GitHead),
    }
}

/// The comment where its template cannot be had.
fn plain_comment(s: &Landing, head: &str, template_error: &str) -> (r: String)
    ensures
        r@ == plain_body(landing_view(*s), head@, template_error@),
{
    let retry = s.input.retry_mention();
    let mut m = cat7(
        head,
        "\n- PR: ",
        s.pr_url.as_str(),
        "\n- branch: `",
        s.branch.as_str(),
        "` (base `",
        s.input.git_base.as_str(),
    );
    m.append("`)\n\nretry: ");
    m.append(retry.as_str());
    m.append("\n\nerror: ");
    m.append(s.error.as_str());
    m.append("\n(template error: ");
    m.append(template_error);
    m.append(")\n");
    m
}

/// The comment from its template as far as that was read and renders.
fn comment_of(s: &Landing, reply: &Reply, error: &str, head: &str) -> (r: String)
    requires
        reply is Text || reply is Failed,
    ensures
        r@ == comment_body(landing_view(*s), reply_view(*reply), error@, head@),
{
    match reply {
        LandingReply::Text(t) => {
            let retry = s.input.retry_mention();
            let values = [
                ("pr_url", s.pr_url.as_str()),
                ("branch", s.branch.as_str()),
                ("base_branch", s.input.git_base.as_str()),
                ("retry_mention", retry.as_str()),
                ("error", error),
            ];
            proof {
                assert(pairs(values@) =~= comment_values(landing_view(*s), error@));
            }
            match render_prompt(t.as_str(), &values) {
                Ok(body) => body,
                Err(e) => {
                    let m = e.message();
                    plain_comment(s, head, m.as_str())
                },
            }
        },
        LandingReply::Failed(e) => plain_comment(s, head, e.as_str()),
        _ => String::new(),
    }
}

/// After the template of the conflict comment was read, or was not.
fn on_conflict(s: Landing, reply: Reply) -> (r: LandingStep)
    requires
        fits(LandingPhase::ConflictTemplate, reply),
    ensures
        step_view(r) == after_conflict(landing_view(s), reply_view(reply)),
{
    let what = cat2("rebase conflict: ", s.error.as_str());
    let body = comment_of(
        &s,
        &reply,
        s.error.as_str(),
        "PR landing blocked (rebase conflicts).",
    );
    s.block("pr_rebase_conflict", what.as_str(), body)
}

/// After the rebased head is known.
fn on_rebased_head(s: Landing, reply: Reply) -> (r: LandingStep)
    requires
        fits(LandingPhase::RebasedHead, reply),
    ensures
        step_view(r) == after_rebased_head(landing_view(s), reply_view(reply)),
{
    match reply {
        LandingReply::Text(t) => {
            let sha = str_trim(t.as_str());
            if sha.is_empty() {
                s.fail("landing_git_head_failed", "rebased head sha was empty")
            } else {
                let mut s = s;
                s.rebased_sha = sha.to_owned();
                s.wait(LandingPhase::RebasedShort, LandingAction::GitHeadShort)
            }
        },
        LandingReply::Failed(e) => s.fail("landing_git_head_failed", e.as_str()),
        _ => s.succeed(),
    }
}

/// After the short name of the rebased head is known, or is not.
fn on_rebased_short(s: Landing, reply: Reply) -> (r: LandingStep)
    requires
        fits(LandingPhase::RebasedShort, reply),
    ensures
        step_view(r) == after_rebased_short(landing_view(s), reply_view(reply)),
{
    let mut s = s;
    s.short = short_name(&reply, s.rebased_sha.as_str());
    let url = s.git_url.clone();
    let refspec = cat2("HEAD:", s.branch.as_str());
    let lease = Some(
        cat4("--force-with-lease=refs/heads/", s.branch.as_str(), ":", s.head_sha.as_str()),
    );
    s.wait(LandingPhase::PushRebased, LandingAction::GitPush { url, refspec, lease })
}

/// After the rebased branch was pushed.
fn on_rebased_push(s: Landing, reply: Reply) -> (r: LandingStep)
    requires
        fits(LandingPhase::PushRebased, reply),
    ensures
        step_view(r) == after_rebased_push(landing_view(s), reply_view(reply)),
{
    match reply {
        LandingReply::Failed(e) => s.fail("landing_git_push_failed", e.as_str()),
        _ => {
            let line = cat2("git_rebase: now at ", s.short.as_str());
            let number: u64 = s.pr_number;
            let sha = s.rebased_sha.clone();
            s.note(line.as_str()).wait(
                LandingPhase::MergeRebased,
                LandingAction::MergePull { number, sha, pause_sec: 0 },
            )
        },
    }
}

/// A merge that stays refused.
fn refuse(s: Landing, error: String, mergeable: Option<bool>) -> (r: LandingStep)
    ensures
        step_view(r) == refused(landing_view(s), error@, mergeable),
{
    let (reason, detail) = classify_persistent_merge_block(mergeable);
    let mut s = s;
    s.error = error;
    s.reason = reason.to_owned();
    s.detail = detail.to_owned();
    s.wait(
        LandingPhase::BlockedTemplate,
        LandingAction::ReadTemplate(BLOCKED_TEMPLATE.to_owned()),
    )
}

/// After the try to merge the rebased branch.
fn on_rebased_merge(s: Landing, reply: Reply) -> (r: LandingStep)
    requires
        fits(LandingPhase::MergeRebased, reply),
    ensures
        step_view(r) == after_rebased_merge(landing_view(s), reply_view(reply)),
{
    match reply {
        LandingReply::Done => land(s),
        LandingReply::Failed(e) => refuse(s, e, None),
        LandingReply::Http { status, body, text } => {
            if try_later(status, body.as_str()) {
                let mut s = s;
                s.error = text;
                s.wait(LandingPhase::Mergeable, LandingAction::ListPulls("open".to_owned()))
            } else {
                refuse(s, text, None)
            }
        },
        _ => s.succeed(),
    }
}

/// After the list of open pull requests in which the mergeability of this one is looked up.
fn on_mergeable(s: Landing, reply: Reply) -> (r: LandingStep)
    requires
        fits(LandingPhase::Mergeable, reply),
    ensures
        step_view(r) == after_mergeable(landing_view(s), reply_view(reply)),
{
    let error = s.error.clone();
    match reply {
        LandingReply::Pulls(prs) => {
            let mergeable = fetch_open_pr_mergeable_state(&prs, s.pr_number);
            refuse(s, error, mergeable)
        },
        _ => refuse(s, error, None),
    }
}

/// After the template of the comment on a blocked merge was read, or was not.
fn on_blocked(s: Landing, reply: Reply) -> (r: LandingStep)
    requires
        fits(LandingPhase::BlockedTemplate, reply),
    ensures
        step_view(r) == after_blocked(landing_view(s), reply_view(reply)),
{
    let told = if str_eq(s.reason.as_str(), "pr_not_mergeable") {
        cat3(s.detail.as_str(), "\n\nraw error: ", s.error.as_str())
    } else {
        s.error.clone()
    };
    let what = cat3(s.detail.as_str(), ": ", s.error.as_str());
    let code = s.reason.clone();
    let body = comment_of(
        &s,
        &reply,
        told.as_str(),
        "PR landing blocked: merge still not possible after rebase.",
    );
    s.block(code.as_str(), what.as_str(), body)
}

/// The superseded pull requests are seen to.
fn settle(s: Landing) -> (r: LandingStep)
    ensures
        step_view(r) == settled(landing_view(s)),
{
    if s.input.has_principal {
        let base = s.input.git_base.clone();
        let url = s.git_url.clone();
        s.wait(LandingPhase::Sync, LandingAction::SyncPrincipal { base, url })
    } else {
        s.succeed()
    }
}

/// The next superseded pull request, where one is left.
fn supersede(s: Landing) -> (r: LandingStep)
    ensures
        step_view(r) == superseding(landing_view(s)),
{
    if s.queue.len() == 0 {
        return settle(s);
    }
    let m = mark_of(s.pr_number, s.pr_url.as_str());
    let body = cat3("Superseded by ", m.as_str(), " after successful re-dispatch; closing.");
    let number: u64 = s.queue[0];
    s.wait(LandingPhase::Comment, LandingAction::CommentIssue { number, body })
}

/// The numbers of pull requests.
fn numbers_of(prs: &Vec<ApiPullRequest>) -> (r: Vec<u64>)
    ensures
        r@ == numbers(prs@),
{
    let mut out: Vec<u64> = Vec::new();
    let mut i: usize = 0;
    while i < prs.len()
        invariant
            i <= prs@.len(),
            out@ == numbers(prs@.take(i as int)),
        decreases prs.len() - i,
    {
        out.push(prs[i].number);
        i = i + 1;
    }
    proof {
        assert(prs@.take(i as int) =~= prs@);
    }
    out
}

/// After the list of open pull requests.
fn on_open_list(s: Landing, reply: Reply) -> (r: LandingStep)
    requires
        fits(LandingPhase::ListOpen, reply),
    ensures
        step_view(r) == after_open_list(landing_view(s), reply_view(reply)),
{
    match reply {
        LandingReply::Pulls(prs) => {
            let issue = IssueRef {
                repo: RepoRef::new(
                    s.input.issue_repo_owner.as_str(),
                    s.input.issue_repo_name.as_str(),
                ),
                number: s.input.issue_number,
            };
            let found = superseded_pr_candidates(prs, &issue, s.pr_number);
            let mut s = s;
            s.queue = numbers_of(&found);
            supersede(s)
        },
        LandingReply::Failed(e) => {
            let line = cat2(
                "pr_supersede_scan_failed: listing open PRs for superseded reconciliation failed: ",
                e.as_str(),
            );
            settle(s.note(line.as_str()))
        },
        _ => s.succeed(),
    }
}

/// What a line says of a step on a superseded pull request.
fn step_note(s: &Landing, step: &str, reply: &Reply) -> (r: String)
    requires
        s.queue@.len() > 0,
    ensures
        r@ == supersede_note(landing_view(*s), step@, reply_view(*reply)),
{
    let n = u64_text(s.queue[0]);
    match reply {
        LandingReply::Failed(e) => cat6(
            "pr_supersede_",
            step,
            "_failed: #",
            n.as_str(),
            ": ",
            e.as_str(),
        ),
        _ => {
            let m = mark_of(s.pr_number, s.pr_url.as_str());
            cat6("pr_supersede_", step, ": #", n.as_str(), " -> ", m.as_str())
        },
    }
}

/// After the comment on a superseded pull request.
fn on_comment(s: Landing, reply: Reply) -> (r: LandingStep)
    requires
        s.queue@.len() > 0,
        fits(LandingPhase::Comment, reply),
    ensures
        step_view(r) == after_comment(landing_view(s), reply_view(reply)),
{
    let line = step_note(&s, "comment", &reply);
    let number: u64 = s.queue[0];
    s.note(line.as_str()).wait(LandingPhase::Close, LandingAction::CloseIssue(number))
}

/// After a superseded pull request was closed, or was not.
fn on_close(s: Landing, reply: Reply) -> (r: LandingStep)
    requires
        s.queue@.len() > 0,
        fits(LandingPhase::Close, reply),
    ensures
        step_view(r) == after_close(landing_view(s), reply_view(reply)),
{
    let line = step_note(&s, "close", &reply);
    let mut s = s.note(line.as_str());
    let ghost before = s.queue@;
    let _first: u64 = s.queue.remove(0);
    proof {
        assert(s.queue@ =~= before.drop_first());
    }
    supersede(s)
}

/// After the principal's checkout was seen to.
fn on_sync(s: Landing, reply: Reply) -> (r: LandingStep)
    requires
        fits(LandingPhase::Sync, reply),
    ensures
        step_view(r) == after_sync(landing_view(s), reply_view(reply)),
{
    match reply {
        LandingReply::Lines(l) => {
            let mut s = s;
            let mut l = l;
            let ghost before = s.lines@;
            let ghost more = l@;
            s.lines.append(&mut l);
            proof {
                assert(views(s.lines@) =~= views(before) + views(more));
            }
            s.succeed()
        },
        _ => s.succeed(),
    }
}

/// Takes a landing on from an answer to what is to be done next.
pub fn evaluate_landing_target(s: Landing, reply: Reply) -> (r: LandingStep)
    requires
        fits(s.phase, reply),
        consistent(landing_view(s)),
    ensures
        step_view(r) == next(landing_view(s), reply_view(reply)),
        consistent(landing_view(r.0)),
{
    match s.phase {
        LandingPhase::Status => on_status(s, reply),
        LandingPhase::Head => on_head(s, reply),
        LandingPhase::BaseHead => on_base(s, reply),
        LandingPhase::OpenClient => on_client(s, reply),
        LandingPhase::ListFirst => on_first_list(s, reply),
        LandingPhase::Whoami => on_login(s, reply),
        LandingPhase::HeadShort => on_head_short(s, reply),
        LandingPhase::Push => on_push(s, reply),
        LandingPhase::ListSecond => on_second_list(s, reply),
        LandingPhase::Create => on_create(s, reply),
        LandingPhase::Merge => on_merge(s, reply),
        LandingPhase::Fetch => on_fetch(s, reply),
        LandingPhase::Rebase => on_rebase(s, reply),
        LandingPhase::ConflictTemplate => on_conflict(s, reply),
        LandingPhase::RebasedHead => on_rebased_head(s, reply),
        LandingPhase::RebasedShort => on_rebased_short(s, reply),
        LandingPhase::PushRebased => on_rebased_push(s, reply),
        LandingPhase::MergeRebased => on_rebased_merge(s, reply),
        LandingPhase::Mergeable => on_mergeable(s, reply),
        LandingPhase::BlockedTemplate => on_blocked(s, reply),
        LandingPhase::ListOpen => on_open_list(s, reply),
        LandingPhase::Comment => on_comment(s, reply),
        LandingPhase::Close => on_close(s, reply),
        LandingPhase::Sync => on_sync(s, reply),
        LandingPhase::Over => s.succeed(),
    }
}

/// How far a landing is from its end, by its phase.
pub open spec fn distance(phase: LandingPhase) -> nat {
    match phase {
        LandingPhase::Status => 21,
        LandingPhase::Head => 20,
        LandingPhase::BaseHead => 19,
        LandingPhase::OpenClient => 18,
        LandingPhase::ListFirst => 17,
        LandingPhase::Whoami => 16,
        LandingPhase::HeadShort => 15,
        LandingPhase::Push => 14,
        LandingPhase::ListSecond => 13,
        LandingPhase::Create => 12,
        LandingPhase::Merge => 11,
        LandingPhase::Fetch => 10,
        LandingPhase::Rebase => 9,
        LandingPhase::ConflictTemplate => 8,
        LandingPhase::RebasedHead => 8,
        LandingPhase::RebasedShort => 7,
        LandingPhase::PushRebased => 6,
        LandingPhase::MergeRebased => 5,
        LandingPhase::Mergeable => 4,
        LandingPhase::BlockedTemplate => 3,
        LandingPhase::ListOpen => 3,
        LandingPhase::Comment => 2,
        LandingPhase::Close => 2,
        LandingPhase::Sync => 1,
        LandingPhase::Over => 0,
    }
}

/// How much is left to do within a phase.
pub open spec fn left_within(s: LandingSpec) -> int {
    match s.phase {
        LandingPhase::Merge => MAX_MERGE_ATTEMPTS - s.attempt,
        LandingPhase::Comment => 2 * s.queue.len() as int + 1,
        LandingPhase::Close => 2 * s.queue.len() as int,
        _ => 0,
    }
}

/// Whatever the answers, a landing ends: each answer brings it nearer to its end, or leaves it in its
/// phase with less left to do there; and the action it then asks for finishes it exactly where it is
/// over.
pub proof fn law_landing_ends(s: LandingSpec, reply: ReplySpec)
    requires
        consistent(s),
        s.phase != LandingPhase::Over,
        fits(s.phase, reply),
    ensures
        ({
            let n = next(s, reply).0;
            &&& consistent(n)
            &&& left_within(s) >= 0
            &&& distance(n.phase) < distance(s.phase) || (distance(n.phase) == distance(s.phase)
                && 0 <= left_within(n) < left_within(s))
        }),
        next(s, reply).0.phase == LandingPhase::Over <==> next(s, reply).1 is Finish,
{
}

/// A blocked landing is always told to the issue, under a key that names the dispatch, the target and
/// the reason; and it is never reported as a success.
pub proof fn law_blocked_landing_is_told(s: LandingSpec, reply: ReplySpec)
    requires
        s.phase != LandingPhase::Over,
        fits(s.phase, reply),
        next(s, reply).1 matches LandingAction::Finish(LandingEnd::Blocked { .. }),
    ensures
        next(s, reply).1 matches LandingAction::Finish(
            LandingEnd::Blocked { reason_code, lines, comment },
        ) && lines.len() == 1 && (comment matches Some(c) && c.delivery_kind == reason_code
            && c.dedupe_key == block_key(s.input, reason_code)),
{
}

/// A branch is pushed without a lease once only, before anything was merged; the push after a rebase
/// holds the branch to the commit that was pushed before it.
pub proof fn law_rebased_push_keeps_the_lease(s: LandingSpec, reply: ReplySpec)
    requires
        s.phase != LandingPhase::Over,
        fits(s.phase, reply),
        next(s, reply).1 is GitPush,
    ensures
        s.phase == LandingPhase::HeadShort || s.phase == LandingPhase::RebasedShort,
        next(s, reply).1 matches LandingAction::GitPush { url, refspec: r, lease: l } && url == s.git_url
            && r == refspec(s) && (s.phase == LandingPhase::HeadShort ==> l is None) && (s.phase
            == LandingPhase::RebasedShort ==> l == Some(lease(s))),
{
}

/// Nothing but the directive that changes code is landed.
pub proof fn law_only_code_changes_land(input: LandingInput<Seq<char>>)
    ensures
        begun(input).1 == LandingAction::<Seq<char>, Seq<Seq<char>>>::Finish(LandingEnd::NotRequired)
            <==> input.directive != DIRECTIVE_IMPL@,
{
}

/// Where a landing of the input stands after the answers, and what it asks for then.
pub open spec fn taken(input: LandingInput<Seq<char>>, replies: Seq<ReplySpec>) -> (
    LandingSpec,
    ActionSpec,
)
    decreases replies.len(),
{
    if replies.len() == 0 {
        begun(input)
    } else {
        next(taken(input, replies.drop_last()).0, replies.last())
    }
}

/// Each answer fits what was asked for.
pub open spec fn answered(input: LandingInput<Seq<char>>, replies: Seq<ReplySpec>) -> bool
    decreases replies.len(),
{
    replies.len() == 0 || {
        let s = taken(input, replies.drop_last()).0;
        answered(input, replies.drop_last()) && s.phase != LandingPhase::Over && fits(
            s.phase,
            replies.last(),
        )
    }
}

/// At some time an action was answered in the way told.
pub open spec fn ever(
    input: LandingInput<Seq<char>>,
    replies: Seq<ReplySpec>,
    p: spec_fn(ActionSpec, ReplySpec) -> bool,
) -> bool
    decreases replies.len(),
{
    replies.len() > 0 && (ever(input, replies.drop_last(), p) || p(
        taken(input, replies.drop_last()).1,
        replies.last(),
    ))
}

/// The branch was pushed.
pub open spec fn pushed() -> spec_fn(ActionSpec, ReplySpec) -> bool {
    |a: ActionSpec, r: ReplySpec| a is GitPush && r is Done
}

/// A pull request was merged.
pub open spec fn merged() -> spec_fn(ActionSpec, ReplySpec) -> bool {
    |a: ActionSpec, r: ReplySpec| a is MergePull && r is Done
}

/// The head of the worktree was at the commit.
pub open spec fn head_was(sha: Seq<char>) -> spec_fn(ActionSpec, ReplySpec) -> bool {
    |a: ActionSpec, r: ReplySpec| a is GitHead && (r matches LandingReply::Text(t) && trim(t) == sha)
}

/// The base was at the commit.
pub open spec fn base_was(input: LandingInput<Seq<char>>, sha: Seq<char>) -> spec_fn(
    ActionSpec,
    ReplySpec,
) -> bool {
    |a: ActionSpec, r: ReplySpec|
        a == LandingAction::<Seq<char>, Seq<Seq<char>>>::GitRevParse(
            input.git_remote + "/"@ + input.git_base,
        ) && (r matches LandingReply::Text(t) && trim(t) == sha)
}

/// A list of all pull requests had a merged one of the branch.
pub open spec fn found_merged(branch: Seq<char>) -> spec_fn(ActionSpec, ReplySpec) -> bool {
    |a: ActionSpec, r: ReplySpec|
        a == LandingAction::<Seq<char>, Seq<Seq<char>>>::ListPulls("all"@) && (
        r matches LandingReply::Pulls(prs) && exists|k: int|
            0 <= k < prs.len() && (#[trigger] prs[k]).merged && prs[k].head.ref_name@ == branch)
}

/// A list of all pull requests had one of the branch with the number.
pub open spec fn found_pull(branch: Seq<char>, number: u64) -> spec_fn(ActionSpec, ReplySpec) -> bool {
    |a: ActionSpec, r: ReplySpec|
        a == LandingAction::<Seq<char>, Seq<Seq<char>>>::ListPulls("all"@) && (
        r matches LandingReply::Pulls(prs) && exists|k: int|
            0 <= k < prs.len() && (#[trigger] prs[k]).number == number && prs[k].head.ref_name@
                == branch)
}

/// A pull request from the branch onto the base was opened and got the number.
pub open spec fn opened_pull(input: LandingInput<Seq<char>>, number: u64) -> spec_fn(
    ActionSpec,
    ReplySpec,
) -> bool {
    |a: ActionSpec, r: ReplySpec|
        (a matches LandingAction::CreatePull { head, base, .. } && head == trim(input.git_branch)
            && base == input.git_base) && (r matches LandingReply::Pull { number: n, .. } && n
            == number)
}

/// There was nothing to land, it had been landed before, or it was pushed and merged.
pub open spec fn landed_well(input: LandingInput<Seq<char>>, replies: Seq<ReplySpec>) -> bool {
    ||| ever(input, replies, pushed()) && ever(input, replies, merged())
    ||| ever(input, replies, found_merged(trim(input.git_branch)))
    ||| exists|sha: Seq<char>|
        #[trigger] ever(input, replies, head_was(sha)) && ever(input, replies, base_was(input, sha))
}

/// The phases in which the branch has been pushed.
spec fn behind_push(phase: LandingPhase) -> bool {
    phase == LandingPhase::ListSecond || phase == LandingPhase::Create || with_pull(phase)
}

/// The phases in which a pull request is being merged.
spec fn with_pull(phase: LandingPhase) -> bool {
    phase == LandingPhase::Merge || phase == LandingPhase::Fetch || phase == LandingPhase::Rebase
        || phase == LandingPhase::RebasedHead || phase == LandingPhase::RebasedShort || phase
        == LandingPhase::PushRebased || phase == LandingPhase::MergeRebased
}

/// What is known of a landing by what it asked for and how that was answered.
spec fn so_far(input: LandingInput<Seq<char>>, replies: Seq<ReplySpec>) -> bool {
    let s = taken(input, replies).0;
    let a = taken(input, replies).1;
    let p = s.phase;
    &&& s.input == input
    &&& s.branch == trim(input.git_branch)
    &&& p == LandingPhase::Head || p == LandingPhase::RebasedHead ==> a is GitHead
    &&& p == LandingPhase::BaseHead ==> a == LandingAction::<
        Seq<char>,
        Seq<Seq<char>>,
    >::GitRevParse(input.git_remote + "/"@ + input.git_base)
    &&& p == LandingPhase::ListFirst || p == LandingPhase::ListSecond ==> a == LandingAction::<
        Seq<char>,
        Seq<Seq<char>>,
    >::ListPulls("all"@)
    &&& p == LandingPhase::Push || p == LandingPhase::PushRebased ==> a is GitPush
    &&& p == LandingPhase::Merge || p == LandingPhase::MergeRebased ==> a is MergePull
    &&& p == LandingPhase::Create ==> (a matches LandingAction::CreatePull { head, base, .. } && head
        == trim(input.git_branch) && base == input.git_base)
    &&& p != LandingPhase::Status && p != LandingPhase::Head && p != LandingPhase::Over ==> ever(
        input,
        replies,
        head_was(s.head_sha),
    )
    &&& p == LandingPhase::RebasedShort || p == LandingPhase::PushRebased || p
        == LandingPhase::MergeRebased ==> ever(input, replies, head_was(s.rebased_sha))
    &&& s.merged_before ==> ever(input, replies, found_merged(trim(input.git_branch)))
    &&& behind_push(p) ==> ever(input, replies, pushed())
    &&& with_pull(p) ==> ever(input, replies, found_pull(trim(input.git_branch), s.pr_number)) || ever(
        input,
        replies,
        opened_pull(input, s.pr_number),
    )
    &&& p == LandingPhase::ListOpen || p == LandingPhase::Comment || p == LandingPhase::Close || p
        == LandingPhase::Sync ==> landed_well(input, replies)
    &&& a matches LandingAction::Finish(LandingEnd::Success(_)) ==> landed_well(input, replies)
    &&& a matches LandingAction::MergePull { number, sha, .. } ==> with_pull(p) && number
        == s.pr_number && ever(input, replies, head_was(sha))
}

/// The first pull request of a branch is one of the list.
proof fn lemma_first_pr(prs: Seq<ApiPullRequest>, branch: Seq<char>, merged_only: bool)
    ensures
        match first_pr(prs, branch, merged_only) {
            Some(pr) => exists|k: int|
                0 <= k < prs.len() && #[trigger] prs[k] == pr && pr.head.ref_name@ == branch && (
                pr.merged || !merged_only) && forall|j: int|
                    0 <= j < k ==> !((#[trigger] prs[j]).head.ref_name@ == branch && (prs[j].merged
                        || !merged_only)),
            None => forall|j: int|
                0 <= j < prs.len() ==> !((#[trigger] prs[j]).head.ref_name@ == branch && (
                prs[j].merged || !merged_only)),
        },
    decreases prs.len(),
{
    if prs.len() > 0 {
        if prs[0].head.ref_name@ == branch && (prs[0].merged || !merged_only) {
            assert(prs[0] == first_pr(prs, branch, merged_only)->0);
        } else {
            let rest = prs.drop_first();
            lemma_first_pr(rest, branch, merged_only);
            assert forall|j: int| 0 < j < prs.len() implies #[trigger] prs[j] == rest[j - 1] by {}
            if let Some(pr) = first_pr(rest, branch, merged_only) {
                let k = choose|k: int|
                    0 <= k < rest.len() && #[trigger] rest[k] == pr && forall|j: int|
                        0 <= j < k ==> !((#[trigger] rest[j]).head.ref_name@ == branch && (
                        rest[j].merged || !merged_only));
                assert(prs[k + 1] == pr);
            }
        }
    }
}

/// What is known of a landing holds after every answer.
#[verifier::rlimit(60)]
proof fn lemma_so_far(input: LandingInput<Seq<char>>, replies: Seq<ReplySpec>)
    requires
        answered(input, replies),
    ensures
        so_far(input, replies),
    decreases replies.len(),
{
    if replies.len() > 0 {
        let before = replies.drop_last();
        lemma_so_far(input, before);
        let s = taken(input, before).0;
        if let LandingReply::Pulls(prs) = replies.last() {
            lemma_first_pr(prs, s.branch, true);
            lemma_first_pr(prs, s.branch, false);
        }
        if landed_well(input, before) {
            assert(landed_well(input, replies)) by {
                if exists|sha: Seq<char>|
                    #[trigger] ever(input, before, head_was(sha)) && ever(
                        input,
                        before,
                        base_was(input, sha),
                    ) {
                    let sha = choose|sha: Seq<char>|
                        #[trigger] ever(input, before, head_was(sha)) && ever(
                            input,
                            before,
                            base_was(input, sha),
                        );
                    assert(ever(input, replies, head_was(sha)));
                }
            }
        }
        if s.phase == LandingPhase::BaseHead {
            assert(ever(input, replies, head_was(s.head_sha)));
            if let LandingReply::Text(t) = replies.last() {
                if trim(t) == s.head_sha {
                    assert(ever(input, replies, base_was(input, s.head_sha)));
                }
            }
        }
    }
}

/// A landing ends well only where its branch was pushed and a pull request was merged, or a merged pull
/// request of the branch was there already, or the branch was at its base.
pub proof fn law_success_is_earned(input: LandingInput<Seq<char>>, replies: Seq<ReplySpec>)
    requires
        answered(input, replies),
        taken(input, replies).1 matches LandingAction::Finish(LandingEnd::Success(_)),
    ensures
        landed_well(input, replies),
{
    lemma_so_far(input, replies);
}

/// A merge is asked for only once the branch was pushed, for a pull request of the branch that the forge
/// listed or opened, and at a commit that the head of the worktree was at.
pub proof fn law_merges_are_of_the_pushed_branch(
    input: LandingInput<Seq<char>>,
    replies: Seq<ReplySpec>,
)
    requires
        answered(input, replies),
    ensures
        taken(input, replies).1 matches LandingAction::MergePull { number, sha, .. } ==> {
            &&& ever(input, replies, pushed())
            &&& ever(input, replies, head_was(sha))
            &&& ever(input, replies, found_pull(trim(input.git_branch), number)) || ever(
                input,
                replies,
                opened_pull(input, number),
            )
        },
{
    lemma_so_far(input, replies);
}

/// A branch counts as merged exactly where the list has a merged pull request of it, and then it is the
/// first of these that the landing goes on with. Such a branch is neither pushed nor merged; any other
/// goes on to its push.
pub proof fn law_only_merged_branches_are_skipped(
    s: LandingSpec,
    prs: Seq<ApiPullRequest>,
    login: Seq<char>,
)
    requires
        s.phase == LandingPhase::ListFirst,
        !s.merged_before,
    ensures
        ({
            let n = next(s, LandingReply::Pulls(prs)).0;
            let m = next(n, LandingReply::Text(login));
            let there = exists|k: int|
                0 <= k < prs.len() && (#[trigger] prs[k]).merged && prs[k].head.ref_name@
                    == s.branch;
            &&& next(s, LandingReply::Pulls(prs)).1 is Whoami
            &&& there ==> exists|k: int|
                0 <= k < prs.len() && (#[trigger] prs[k]).merged && prs[k].head.ref_name@ == s.branch
                    && n.pr_number == prs[k].number && n.pr_url == prs[k].html_url@ && forall|j: int|
                    0 <= j < k ==> !((#[trigger] prs[j]).merged && prs[j].head.ref_name@ == s.branch)
            &&& !there ==> !(m.1 is ListPulls)
            &&& there ==> !(m.1 is GitHeadShort)
            &&& git_url_result(s.base_url, login, s.input.repo_owner + "/"@ + s.input.repo_name) is Ok
                ==> (if there {
                m.1 == LandingAction::<Seq<char>, Seq<Seq<char>>>::ListPulls("open"@)
            } else {
                m.1 is GitHeadShort
            })
        }),
{
    lemma_first_pr(prs, s.branch, true);
}

/// What is pushed is the head of the worktree to the branch of the dispatch: the first time as it is, and
/// after a rebase only where the branch is still at the commit of the first push.
pub proof fn law_pushes_go_to_the_branch(s: LandingSpec, reply: ReplySpec)
    requires
        s.phase != LandingPhase::Over,
        fits(s.phase, reply),
    ensures
        s.phase == LandingPhase::HeadShort ==> next(s, reply).1 == (LandingAction::<
            Seq<char>,
            Seq<Seq<char>>,
        >::GitPush { url: s.git_url, refspec: "HEAD:"@ + s.branch, lease: None }),
        s.phase == LandingPhase::RebasedShort ==> next(s, reply).1 == (LandingAction::<
            Seq<char>,
            Seq<Seq<char>>,
        >::GitPush {
            url: s.git_url,
            refspec: "HEAD:"@ + s.branch,
            lease: Some("--force-with-lease=refs/heads/"@ + s.branch + ":"@ + s.head_sha),
        }),
        next(s, reply).1 is GitPush ==> s.phase == LandingPhase::HeadShort || s.phase
            == LandingPhase::RebasedShort,
        s.phase == LandingPhase::Push && reply is Done ==> next(s, reply).1 == LandingAction::<
            Seq<char>,
            Seq<Seq<char>>,
        >::ListPulls("all"@),
        s.phase == LandingPhase::PushRebased && reply is Done ==> next(s, reply).1 == (
        LandingAction::<Seq<char>, Seq<Seq<char>>>::MergePull {
            number: s.pr_number,
            sha: s.rebased_sha,
            pause_sec: 0,
        }),
{
}

/// A pull request of the branch is reused, the first of the list; one is opened, from the branch onto the
/// base and under the name of the issue, exactly where the list has none. It is merged at the head.
pub proof fn law_pulls_are_reused(s: LandingSpec, prs: Seq<ApiPullRequest>, number: u64, url: Seq<char>)
    requires
        s.phase == LandingPhase::ListSecond,
    ensures
        ({
            let n = next(s, LandingReply::Pulls(prs));
            let there = exists|k: int|
                0 <= k < prs.len() && (#[trigger] prs[k]).head.ref_name@ == s.branch;
            let name = s.input.issue_repo_owner + "/"@ + s.input.issue_repo_name + "#"@ + decimal(
                s.input.issue_number as nat,
            );
            &&& there ==> exists|k: int|
                0 <= k < prs.len() && (#[trigger] prs[k]).head.ref_name@ == s.branch && n.1 == (
                LandingAction::<Seq<char>, Seq<Seq<char>>>::MergePull {
                    number: prs[k].number,
                    sha: s.head_sha,
                    pause_sec: 0,
                }) && n.0.pr_number == prs[k].number && n.0.pr_url == prs[k].html_url@ && forall|j: int|
                    0 <= j < k ==> (#[trigger] prs[j]).head.ref_name@ != s.branch
            &&& !there ==> n.1 == (LandingAction::<Seq<char>, Seq<Seq<char>>>::CreatePull {
                title: name + ": "@ + s.input.issue_title,
                body: "Automated PR for "@ + name + "."@,
                head: s.branch,
                base: s.input.git_base,
            }) && next(n.0, LandingReply::Pull { number, url }).1 == (LandingAction::<
                Seq<char>,
                Seq<Seq<char>>,
            >::MergePull { number, sha: s.head_sha, pause_sec: 0 }) && next(
                n.0,
                LandingReply::Pull { number, url },
            ).0.pr_number == number && next(n.0, LandingReply::Pull { number, url }).0.pr_url == url
        }),
{
    lemma_first_pr(prs, s.branch, false);
}

/// A refused merge is tried again after ten seconds where the forge failed or is not ready, three times
/// in all; then, or where the branch is behind or locked, it is mended by a rebase onto the base. Any
/// other refusal is a failure of the landing.
pub proof fn law_refused_merges_are_mended(s: LandingSpec, status: u16, body: Seq<char>, text: Seq<char>)
    requires
        s.phase == LandingPhase::Merge,
    ensures
        ({
            let n = next(s, LandingReply::Http { status, body, text });
            let passing = status >= 500 || (status == 405 && has_part(
                body,
                "Please try again later"@,
            ));
            &&& passing && s.attempt < 3 ==> n.0.phase == LandingPhase::Merge && n.0.attempt
                == s.attempt + 1 && n.1 == (LandingAction::<Seq<char>, Seq<Seq<char>>>::MergePull {
                number: s.pr_number,
                sha: s.head_sha,
                pause_sec: 10,
            })
            &&& (passing && s.attempt >= 3) || status == 409 || status == 423 ==> n.1 == (
            LandingAction::<Seq<char>, Seq<Seq<char>>>::GitFetch {
                url: s.git_url,
                base: s.input.git_base,
            })
            &&& !passing && status != 409 && status != 423 ==> (n.1 matches LandingAction::Finish(
                LandingEnd::Failure { reason_code, .. },
            ) && reason_code == "landing_pr_merge_failed"@)
        }),
        next(s, LandingReply::Done).1 == LandingAction::<Seq<char>, Seq<Seq<char>>>::ListPulls(
            "open"@,
        ),
        next(s, LandingReply::Done).0.pr_number == s.pr_number,
{
}

/// The mend goes its way: fetch, rebase, push and merge of the rebased head. A rebase that conflicts is
/// given up and blocks the landing, and so does a merge that is refused once more; neither is a failure.
pub proof fn law_rebases_land_or_block(s: LandingSpec, reply: ReplySpec, template: ReplySpec)
    requires
        fits(s.phase, reply),
        template is Text || template is Failed,
    ensures
        s.phase == LandingPhase::Fetch && reply is Done ==> next(s, reply).1 is GitRebase,
        s.phase == LandingPhase::Rebase && reply is Done ==> next(s, reply).1 is GitHead && next(
            s,
            reply,
        ).0.phase == LandingPhase::RebasedHead,
        s.phase == LandingPhase::Rebase && reply is Failed ==> next(s, reply).1 == LandingAction::<
            Seq<char>,
            Seq<Seq<char>>,
        >::AbortRebaseAndReadTemplate("templates/orchd-landing-pr-rebase-conflict.md"@) && (next(
            next(s, reply).0,
            template,
        ).1 matches LandingAction::Finish(LandingEnd::Blocked { reason_code, .. }) && reason_code
            == "pr_rebase_conflict"@),
        s.phase == LandingPhase::RebasedHead ==> (reply matches LandingReply::Text(t) ==> (trim(t).len()
            > 0 ==> next(s, reply).1 is GitHeadShort && next(s, reply).0.rebased_sha == trim(t)
            && next(s, reply).0.head_sha == s.head_sha)),
        s.phase == LandingPhase::MergeRebased && reply is Done ==> next(s, reply).1
            == LandingAction::<Seq<char>, Seq<Seq<char>>>::ListPulls("open"@),
        s.phase == LandingPhase::MergeRebased && reply is Failed ==> (next(
            next(s, reply).0,
            template,
        ).1 matches LandingAction::Finish(LandingEnd::Blocked { reason_code, .. }) && reason_code
            == "pr_merge_blocked"@),
        s.phase == LandingPhase::MergeRebased ==> (reply matches LandingReply::Http {
            status,
            body,
            text,
        } ==> if status == 405 && has_part(body, "Please try again later"@) {
            next(s, reply).1 == LandingAction::<Seq<char>, Seq<Seq<char>>>::ListPulls("open"@) && next(
                s,
                reply,
            ).0.phase == LandingPhase::Mergeable && next(s, reply).0.pr_number == s.pr_number
        } else {
            next(next(s, reply).0, template).1 matches LandingAction::Finish(
                LandingEnd::Blocked { reason_code, .. },
            ) && reason_code == "pr_merge_blocked"@
        }),
{
}

/// What a list says of a pull request is what its first entry of the number says.
proof fn lemma_mergeability(prs: Seq<ApiPullRequest>, number: u64, k: int)
    requires
        0 <= k < prs.len(),
        prs[k].number == number,
        forall|j: int| 0 <= j < k ==> (#[trigger] prs[j]).number != number,
    ensures
        mergeability(prs, number) == prs[k].mergeable,
    decreases prs.len(),
{
    if k > 0 {
        assert(prs.drop_first()[k - 1] == prs[k]);
        lemma_mergeability(prs.drop_first(), number, k - 1);
    }
}

/// Where the forge says that the pull request cannot be merged, that is the reason of the block.
pub proof fn law_conflicts_are_named(
    s: LandingSpec,
    prs: Seq<ApiPullRequest>,
    k: int,
    template: ReplySpec,
)
    requires
        s.phase == LandingPhase::Mergeable,
        0 <= k < prs.len(),
        prs[k].number == s.pr_number,
        forall|j: int| 0 <= j < k ==> (#[trigger] prs[j]).number != s.pr_number,
        template is Text || template is Failed,
    ensures
        next(next(s, LandingReply::Pulls(prs)).0, template).1 matches LandingAction::Finish(
            LandingEnd::Blocked { reason_code, .. },
        ) && reason_code == (if prs[k].mergeable == Some(false) {
            "pr_not_mergeable"@
        } else {
            "pr_merge_blocked"@
        }),
{
    lemma_mergeability(prs, s.pr_number, k);
}

/// Only an unclean worktree blocks a landing at its outset; the branch is at its base exactly where both
/// are at one commit, and only then nothing is landed.
pub proof fn law_landings_start_clean(s: LandingSpec, text: Seq<char>, branch: LandingInput<Seq<char>>)
    ensures
        s.phase == LandingPhase::Status ==> (if trim(text).len() > 0 {
            next(s, LandingReply::Text(text)).1 matches LandingAction::Finish(
                LandingEnd::Blocked { reason_code, .. },
            ) && reason_code == "worktree_dirty"@
        } else {
            next(s, LandingReply::Text(text)).1 is GitHead
        }),
        s.phase == LandingPhase::Head ==> (if trim(text).len() > 0 {
            next(s, LandingReply::Text(text)).1 == LandingAction::<
                Seq<char>,
                Seq<Seq<char>>,
            >::GitRevParse(s.input.git_remote + "/"@ + s.input.git_base) && next(
                s,
                LandingReply::Text(text),
            ).0.head_sha == trim(text)
        } else {
            next(s, LandingReply::Text(text)).1 matches LandingAction::Finish(
                LandingEnd::Failure { .. },
            )
        }),
        s.phase == LandingPhase::BaseHead ==> (if trim(text) == s.head_sha {
            next(s, LandingReply::Text(text)).1 matches LandingAction::Finish(LandingEnd::Success(_))
        } else {
            next(s, LandingReply::Text(text)).1 is OpenClient
        }),
        s.phase == LandingPhase::BaseHead ==> next(s, LandingReply::Failed(text)).1 is OpenClient,
        s.phase == LandingPhase::OpenClient ==> next(s, LandingReply::Text(text)).1
            == LandingAction::<Seq<char>, Seq<Seq<char>>>::ListPulls("all"@),
        branch.directive == "impl"@ ==> (if trim(branch.git_branch).len() > 0 {
            begun(branch).1 is GitStatus && begun(branch).0.phase == LandingPhase::Status
                && !begun(branch).0.merged_before
        } else {
            begun(branch).1 matches LandingAction::Finish(LandingEnd::Failure { .. })
        }),
        branch.directive != "impl"@ ==> begun(branch).1 == LandingAction::<
            Seq<char>,
            Seq<Seq<char>>,
        >::Finish(LandingEnd::NotRequired),
{
}

/// Each failure outside has its reason: the code under which the landing then fails. Where the base
/// cannot be told, a short name is missing, a superseded pull request cannot be seen to or a rebase
/// conflicts, the landing does not fail.
pub proof fn law_failures_have_their_codes(s: LandingSpec, e: Seq<char>)
    requires
        fits(s.phase, LandingReply::<Seq<char>, Seq<Seq<char>>, Seq<ApiPullRequest>>::Failed(e)),
    ensures
        next(s, LandingReply::Failed(e)).1 matches LandingAction::Finish(
            LandingEnd::Failure { reason_code, .. },
        ) ==> reason_code == (match s.phase {
            LandingPhase::Status => "landing_git_status_failed"@,
            LandingPhase::Head => "landing_git_head_failed"@,
            LandingPhase::RebasedHead => "landing_git_head_failed"@,
            LandingPhase::OpenClient => "landing_api_client_error"@,
            LandingPhase::ListFirst => "landing_pr_list_failed"@,
            LandingPhase::ListSecond => "landing_pr_list_failed"@,
            LandingPhase::Whoami => "landing_whoami_failed"@,
            LandingPhase::Push => "landing_git_push_failed"@,
            LandingPhase::PushRebased => "landing_git_push_failed"@,
            LandingPhase::Create => "landing_pr_create_failed"@,
            LandingPhase::Merge => "landing_pr_merge_failed"@,
            _ => "landing_git_fetch_failed"@,
        }),
        next(s, LandingReply::Failed(e)).1 matches LandingAction::Finish(LandingEnd::Failure { .. })
            <==> !(s.phase == LandingPhase::BaseHead || s.phase == LandingPhase::HeadShort || s.phase
            == LandingPhase::Rebase || s.phase == LandingPhase::ConflictTemplate || s.phase
            == LandingPhase::RebasedShort || s.phase == LandingPhase::MergeRebased || s.phase
            == LandingPhase::Mergeable || s.phase == LandingPhase::BlockedTemplate || s.phase
            == LandingPhase::ListOpen || s.phase == LandingPhase::Comment || s.phase
            == LandingPhase::Close),
{
}

/// After a merge the open pull requests of the issue on dispatch branches are closed, each with a comment
/// that names the one that landed; the landed one and those of other issues stay. They are taken in order
/// of their numbers, and what fails there does not fail the landing. The principal's checkout comes last.
pub proof fn law_superseded_pulls_are_closed(s: LandingSpec, prs: Seq<ApiPullRequest>, reply: ReplySpec)
    requires
        reply is Done || reply is Failed,
    ensures
        s.phase == LandingPhase::ListOpen ==> {
            let q = next(s, LandingReply::Pulls(prs)).0.queue;
            &&& forall|n: u64| #[trigger]
                q.contains(n) <==> exists|k: int|
                    0 <= k < prs.len() && (#[trigger] prs[k]).number == n && n != s.pr_number
                        && !prs[k].merged && lower(prs[k].state@) == lower("open"@)
                        && "orchd/d"@.is_prefix_of(prs[k].head.ref_name@) && ((
                    s.input.issue_repo_owner + "/"@ + s.input.issue_repo_name + "#"@ + decimal(
                        s.input.issue_number as nat,
                    ) + ": "@).is_prefix_of(prs[k].title@) || has_part(
                        prs[k].head.ref_name@,
                        "-i"@ + decimal(s.input.issue_number as nat) + "-"@,
                    ))
            &&& forall|i: int, j: int|
                0 <= i < j < q.len() ==> #[trigger] q[i] <= #[trigger] q[j]
            &&& q.len() > 0 ==> (next(s, LandingReply::Pulls(prs)).1 matches
                LandingAction::CommentIssue { number, .. } && number == q[0])
            &&& q.len() == 0 ==> sees_to_principal(s, next(s, LandingReply::Pulls(prs)).1)
        },
        s.phase == LandingPhase::ListOpen && reply is Failed ==> sees_to_principal(
            s,
            next(s, reply).1,
        ),
        s.phase == LandingPhase::Comment ==> next(s, reply).1 == LandingAction::<
            Seq<char>,
            Seq<Seq<char>>,
        >::CloseIssue(s.queue[0]) && next(s, reply).0.queue == s.queue,
        s.phase == LandingPhase::Close && s.queue.len() > 0 ==> {
            &&& next(s, reply).0.queue == s.queue.skip(1)
            &&& s.queue.len() > 1 ==> next(s, reply).1 == (LandingAction::<
                Seq<char>,
                Seq<Seq<char>>,
            >::CommentIssue {
                number: s.queue[1],
                body: "Superseded by #"@ + decimal(s.pr_number as nat) + " ("@ + s.pr_url
                    + ") after successful re-dispatch; closing."@,
            })
            &&& s.queue.len() == 1 ==> sees_to_principal(s, next(s, reply).1)
        },
{
    let issue = issue_full(s.input);
    law_candidates_are_ordered_and_exact(prs, issue, s.input.issue_number, s.pr_number);
    let found = candidates(prs, issue, s.input.issue_number, s.pr_number);
    if s.phase == LandingPhase::ListOpen {
        let q = next(s, LandingReply::Pulls(prs)).0.queue;
        assert(q == numbers(found));
        assert forall|n: u64| #[trigger]
            q.contains(n) <==> exists|k: int|
                0 <= k < prs.len() && (#[trigger] prs[k]).number == n && superseded(
                    prs[k],
                    issue,
                    s.input.issue_number,
                    s.pr_number,
                ) by {
            if q.contains(n) {
                let i = choose|i: int| 0 <= i < q.len() && q[i] == n;
                assert(found.contains(found[i]));
                let k = choose|k: int| 0 <= k < prs.len() && prs[k] == found[i];
                assert(prs[k].number == n);
            }
            if exists|k: int|
                0 <= k < prs.len() && (#[trigger] prs[k]).number == n && superseded(
                    prs[k],
                    issue,
                    s.input.issue_number,
                    s.pr_number,
                ) {
                let k = choose|k: int|
                    0 <= k < prs.len() && (#[trigger] prs[k]).number == n && superseded(
                        prs[k],
                        issue,
                        s.input.issue_number,
                        s.pr_number,
                    );
                assert(prs.contains(prs[k]));
                assert(found.contains(prs[k]));
                let i = choose|i: int| 0 <= i < found.len() && found[i] == prs[k];
                assert(q[i] == n);
            }
        }
    }
    if s.phase == LandingPhase::Close && s.queue.len() > 0 {
        assert(s.queue.drop_first() =~= s.queue.skip(1));
        assert("Superseded by "@ + ("#"@ + decimal(s.pr_number as nat) + " ("@ + s.pr_url + ")"@)
            + " after successful re-dispatch; closing."@ =~= "Superseded by #"@ + decimal(
            s.pr_number as nat,
        ) + " ("@ + s.pr_url + ") after successful re-dispatch; closing."@) by {
            reveal_strlit("Superseded by ");
            reveal_strlit("Superseded by #");
            reveal_strlit("#");
            reveal_strlit(")");
            reveal_strlit(" after successful re-dispatch; closing.");
            reveal_strlit(") after successful re-dispatch; closing.");
        }
    }
}

/// The action brings the principal's checkout up to the base, or ends the landing well where there is no
/// such checkout.
pub open spec fn sees_to_principal(s: LandingSpec, a: ActionSpec) -> bool {
    if s.input.has_principal {
        a == (LandingAction::<Seq<char>, Seq<Seq<char>>>::SyncPrincipal {
            base: s.input.git_base,
            url: s.git_url,
        })
    } else {
        a matches LandingAction::Finish(LandingEnd::Success(_))
    }
}

/// Nothing that was noted is lost: the lines only grow, and a landing that ends well tells all of them,
/// those of the principal's checkout behind the others.
pub proof fn law_landing_lines_only_grow(s: LandingSpec, reply: ReplySpec)
    requires
        s.phase != LandingPhase::Over,
        fits(s.phase, reply),
    ensures
        s.lines.is_prefix_of(next(s, reply).0.lines),
        next(s, reply).1 matches LandingAction::Finish(LandingEnd::Success(l)) ==> l == next(
            s,
            reply,
        ).0.lines,
        s.phase == LandingPhase::Sync ==> (reply matches LandingReply::Lines(l) ==> next(s, reply).1
            == LandingAction::<Seq<char>, Seq<Seq<char>>>::Finish(LandingEnd::Success(s.lines + l))),
        next(s, reply).0.input == s.input,
        next(s, reply).0.branch == s.branch,
{
}

/// The comment of a blocked landing is sent once per dispatch, target and reason.
pub proof fn law_block_keys_tell_reasons_apart(s: LandingSpec, reply: ReplySpec)
    requires
        s.phase != LandingPhase::Over,
        fits(s.phase, reply),
    ensures
        next(s, reply).1 matches LandingAction::Finish(LandingEnd::Blocked { reason_code, comment, .. })
            ==> (comment matches Some(c) && c.delivery_kind == reason_code && c.dedupe_key
            == "dispatch:"@ + decimal_int(s.input.dispatch_id as int) + ":"@ + s.input.kind + ":"@
            + reason_code),
{
}

/// The action asks for the answer that the phase waits for.
pub open spec fn waited_for(phase: LandingPhase, action: ActionSpec) -> bool {
    match phase {
        LandingPhase::Status => action is GitStatus,
        LandingPhase::Head => action is GitHead,
        LandingPhase::BaseHead => action is GitRevParse,
        LandingPhase::OpenClient => action is OpenClient,
        LandingPhase::ListFirst => action is ListPulls,
        LandingPhase::Whoami => action is Whoami,
        LandingPhase::HeadShort => action is GitHeadShort,
        LandingPhase::Push => action is GitPush,
        LandingPhase::ListSecond => action is ListPulls,
        LandingPhase::Create => action is CreatePull,
        LandingPhase::Merge => action is MergePull,
        LandingPhase::Fetch => action is GitFetch,
        LandingPhase::Rebase => action is GitRebase,
        LandingPhase::ConflictTemplate => action is AbortRebaseAndReadTemplate,
        LandingPhase::RebasedHead => action is GitHead,
        LandingPhase::RebasedShort => action is GitHeadShort,
        LandingPhase::PushRebased => action is GitPush,
        LandingPhase::MergeRebased => action is MergePull,
        LandingPhase::Mergeable => action is ListPulls,
        LandingPhase::BlockedTemplate => action is ReadTemplate,
        LandingPhase::ListOpen => action is ListPulls,
        LandingPhase::Comment => action is CommentIssue,
        LandingPhase::Close => action is CloseIssue,
        LandingPhase::Sync => action is SyncPrincipal,
        LandingPhase::Over => action is Finish,
    }
}

/// What is asked for is what is waited for, and nothing after the end.
#[verifier::rlimit(60)]
pub proof fn law_landings_wait_for_what_they_ask(s: LandingSpec, reply: ReplySpec)
    requires
        consistent(s),
        fits(s.phase, reply),
    ensures
        waited_for(next(s, reply).0.phase, next(s, reply).1),
{
}

/// What is told of a landing that stays blocked is the error of the forge, and in front of it what is to be
/// done where there are conflicts; the comment is its template with where the work is and how to go on.
pub proof fn law_blocked_landings_tell_what_to_do(
    s: LandingSpec,
    template: Seq<char>,
    error: Seq<char>,
    head: Seq<char>,
    body: Seq<char>,
)
    ensures
        s.reason == "pr_not_mergeable"@ ==> blocked_error(s) == s.detail + "\n\nraw error: "@ + s.error,
        s.reason != "pr_not_mergeable"@ ==> blocked_error(s) == s.error,
        "codex"@.is_prefix_of(s.input.role_name) ==> retry_mention(s.input) == "@"@ + s.input.role_name
            + " impl"@,
        !"codex"@.is_prefix_of(s.input.role_name) ==> retry_mention(s.input).len() == 0,
        rendered(
            template,
            seq![
                ("pr_url"@, s.pr_url),
                ("branch"@, s.branch),
                ("base_branch"@, s.input.git_base),
                ("retry_mention"@, retry_mention(s.input)),
                ("error"@, error),
            ],
        ) == Ok::<Seq<char>, Seq<char>>(body) ==> comment_body(s, LandingReply::Text(template), error, head)
            == body,
{
}

} // verus!
