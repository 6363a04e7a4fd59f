//! Checkouts of repositories: where they are kept, how they are made and brought up to date.

use crate::errors::DispatchError;
use crate::paths::{joined, parent_of, path_parent};
use crate::repo::{
    beside, forgejo_http_git_url, git_url, repo_checkout_root, DEFAULT_GIT_BASE_BRANCH,
    DEFAULT_GIT_REMOTE,
};
use crate::text::{cat2, cat3, cat4, cat5, str_eq, str_trim, texts, trim, views};
use crate::types::{repo_parts, RepoRef};
use vstd::prelude::*;
use vstd::string::*;

verus! {

/// The script that hands git the token.
pub const ASKPASS_SCRIPT: &'static str =
    "#!/bin/sh\nset -eu\ncat \"${ORCHD_GIT_TOKEN_FILE:?missing ORCHD_GIT_TOKEN_FILE}\"\n";

/// The git commands that make the worktree of a dispatch.
pub struct WorktreeCommands {
    /// Fetches the base, with the token.
    pub fetch: Vec<String>,
    /// Adds the worktree on its branch.
    pub add: Vec<String>,
}

/// How the worktree of a dispatch is made: from the fetched base, in a path that does not exist, next
/// to a checkout.
pub fn create_dispatch_worktree(
    worktree_exists: bool,
    git_dir_exists: bool,
    repo_root: &str,
    worktree_dir: &str,
    branch: &str,
    remote: &str,
    base_branch: &str,
) -> (r: Result<WorktreeCommands, DispatchError>)
    ensures
        worktree_exists ==> (r matches Err(DispatchError::Io(m)) && m@
            == "dispatch worktree path already exists: "@ + worktree_dir@),
        !worktree_exists && !git_dir_exists ==> (r matches Err(DispatchError::Io(m)) && m@
            == "repo root is not a git checkout: "@ + repo_root@),
        !worktree_exists && git_dir_exists ==> (r matches Ok(c) && views(c.fetch@) == seq![
            "fetch"@,
            remote@,
            base_branch@,
        ] && views(c.add@) == seq![
            "worktree"@,
            "add"@,
            "-B"@,
            branch@,
            worktree_dir@,
            remote@ + "/"@ + base_branch@,
        ]),
{
    if worktree_exists {
        return Err(DispatchError::Io(cat2("dispatch worktree path already exists: ", worktree_dir)));
    }
    if !git_dir_exists {
        return Err(DispatchError::Io(cat2("repo root is not a git checkout: ", repo_root)));
    }
    let base_ref = cat3(remote, "/", base_branch);
    let f = ["fetch", remote, base_branch];
    let a = ["worktree", "add", "-B", branch, worktree_dir, base_ref.as_str()];
    let fetch = texts(&f);
    let add = texts(&a);
    proof {
        assert(views(fetch@) =~= seq!["fetch"@, remote@, base_branch@]);
        assert(views(add@) =~= seq![
            "worktree"@,
            "add"@,
            "-B"@,
            branch@,
            worktree_dir@,
            remote@ + "/"@ + base_branch@,
        ]);
    }
    Ok(WorktreeCommands { fetch, add })
}

/// Where the checkout of a repository is kept for a login.
pub fn checkout_path(db_path: &str, forgejo_login: &str, repo_full_name: &str) -> (r: Result<
    String,
    DispatchError,
>)
    ensures
        match (repo_parts(repo_full_name@), beside(db_path@, "repos"@)) {
            (None, _) => r matches Err(DispatchError::InvalidIssueRef(x)) && x@ == repo_full_name@,
            (Some(_), None) => r matches Err(DispatchError::Io(m)) && m@ == "db path has no parent"@,
            (Some(p), Some(root)) => r matches Ok(x) && x@ == joined(
                joined(joined(root, forgejo_login@), p.0),
                p.1,
            ),
        },
{
    match RepoRef::parse(repo_full_name) {
        Ok(repo) => repo_checkout_root(db_path, forgejo_login, &repo),
        Err(_) => Err(DispatchError::InvalidIssueRef(repo_full_name.to_owned())),
    }
}

/// What is done about a checkout.
pub enum CheckoutStep {
    /// Fetched with these arguments, whether that succeeds or not, and used.
    Refresh(Vec<String>),
    /// Cloned, once the directory above it is there.
    Clone { parent: Option<String> },
}

/// What is done about a checkout: one that is there is refreshed, and one that is not is cloned; a
/// path that is something else is refused.
pub fn ensure_repo_checkout(checkout: &str, is_git_repo: bool, is_there: bool) -> (r: Result<
    CheckoutStep,
    DispatchError,
>)
    ensures
        is_git_repo ==> (r matches Ok(CheckoutStep::Refresh(a)) && views(a@) == seq![
            "fetch"@,
            DEFAULT_GIT_REMOTE@,
            DEFAULT_GIT_BASE_BRANCH@,
        ]),
        !is_git_repo && is_there ==> (r matches Err(DispatchError::Io(m)) && m@
            == "repo checkout path exists but is not a git repo: "@ + checkout@),
        !is_git_repo && !is_there ==> (r matches Ok(CheckoutStep::Clone { parent })
            && crate::text::opt_view(parent) == parent_of(checkout@)),
{
    if is_git_repo {
        let a = ["fetch", DEFAULT_GIT_REMOTE, DEFAULT_GIT_BASE_BRANCH];
        let list = texts(&a);
        proof {
            assert(views(list@) =~= seq!["fetch"@, DEFAULT_GIT_REMOTE@, DEFAULT_GIT_BASE_BRANCH@]);
        }
        return Ok(CheckoutStep::Refresh(list));
    }
    if is_there {
        return Err(
            DispatchError::Io(
                cat2("repo checkout path exists but is not a git repo: ", checkout),
            ),
        );
    }
    Ok(CheckoutStep::Clone { parent: path_parent(checkout) })
}

/// The git arguments that clone a repository of the forge to a path.
pub fn clone_args(base_url: &str, forgejo_login: &str, repo_full_name: &str, checkout: &str) -> (r:
    Result<Vec<String>, DispatchError>)
    ensures
        match git_url(base_url@, forgejo_login@, repo_full_name@) {
            Some(u) => r matches Ok(a) && views(a@) == seq![
                "clone"@,
                "--origin"@,
                DEFAULT_GIT_REMOTE@,
                u,
                checkout@,
            ],
            None => r matches Err(e) && Err::<Seq<char>, Seq<char>>(e.says())
                == crate::repo::git_url_result(base_url@, forgejo_login@, repo_full_name@),
        },
{
    let url = match forgejo_http_git_url(base_url, forgejo_login, repo_full_name) {
        Ok(u) => u,
        Err(e) => {
            return Err(e);
        },
    };
    let a = ["clone", "--origin", DEFAULT_GIT_REMOTE, url.as_str(), checkout];
    let list = texts(&a);
    proof {
        assert(views(list@) =~= seq![
            "clone"@,
            "--origin"@,
            DEFAULT_GIT_REMOTE@,
            url@,
            checkout@,
        ]);
    }
    Ok(list)
}

/// What the lock of a repository holds.
pub fn lock_text(repo_full_name: &str, created_at: &str) -> (r: String)
    ensures
        r@ == "repo="@ + repo_full_name@ + "\ncreated_at="@ + created_at@ + "\n"@,
{
    cat5("repo=", repo_full_name, "\ncreated_at=", created_at, "\n")
}

/// Which answer the bringing up to date of a principal's checkout waits for.
#[derive(Clone, Copy, PartialEq, Eq, Structural)]
pub enum SyncPhase {
    Inside,
    Status,
    Branch,
    Fetch,
    Before,
    Merge,
    After,
    Over,
}

/// Where the bringing up to date stands.
#[verifier::ext_equal]
pub struct SyncState<S> {
    pub phase: SyncPhase,
    pub base: S,
    pub url: S,
    pub before: S,
}

/// What is done next.
#[verifier::ext_equal]
pub enum SyncAction<S, L> {
    /// A git command in the checkout.
    Git(L),
    /// A git command in the checkout, with the token.
    GitWithToken(L),
    /// It is over; the line tells how.
    Finish(S),
}

/// What git answered: its output, or why it failed.
#[verifier::ext_equal]
pub enum GitReply<S> {
    Out(S),
    Failed(S),
}

/// The bringing up to date in contracts.
pub type SyncSpec = SyncState<Seq<char>>;

/// A step in contracts.
pub type SyncStepSpec = (SyncSpec, SyncAction<Seq<char>, Seq<Seq<char>>>);

/// A step at run time.
pub type SyncStep = (SyncState<String>, SyncAction<String, Vec<String>>);

/// The view of a state.
pub open spec fn sync_view(s: SyncState<String>) -> SyncSpec {
    SyncState { phase: s.phase, base: s.base@, url: s.url@, before: s.before@ }
}

/// The view of a step.
pub open spec fn sync_step_view(r: SyncStep) -> SyncStepSpec {
    (
        sync_view(r.0),
        match r.1 {
            SyncAction::Git(l) => SyncAction::Git(views(l@)),
            SyncAction::GitWithToken(l) => SyncAction::GitWithToken(views(l@)),
            SyncAction::Finish(t) => SyncAction::Finish(t@),
        },
    )
}

/// The view of an answer.
pub open spec fn git_reply_view(r: GitReply<String>) -> GitReply<Seq<char>> {
    match r {
        GitReply::Out(t) => GitReply::Out(t@),
        GitReply::Failed(t) => GitReply::Failed(t@),
    }
}

/// It is over.
pub open spec fn sync_over(s: SyncSpec, line: Seq<char>) -> SyncStepSpec {
    (SyncState { phase: SyncPhase::Over, ..s }, SyncAction::Finish("principal_sync: "@ + line))
}

/// A git command comes next.
pub open spec fn sync_git(s: SyncSpec, phase: SyncPhase, args: Seq<Seq<char>>) -> SyncStepSpec {
    (SyncState { phase, ..s }, SyncAction::Git(args))
}

/// The arguments that ask for the short name of the head.
pub open spec fn head_short() -> Seq<Seq<char>> {
    seq!["rev-parse"@, "--short"@, "HEAD"@]
}

/// How the bringing up to date goes on from an answer. It touches nothing but a clean checkout of the
/// base, and that by fast-forwarding alone.
pub open spec fn sync_next(s: SyncSpec, reply: GitReply<Seq<char>>) -> SyncStepSpec {
    match s.phase {
        SyncPhase::Inside => match reply {
            GitReply::Failed(e) => sync_over(s, "skipped (not a git repo): "@ + e),
            GitReply::Out(_) => sync_git(
                s,
                SyncPhase::Status,
                seq!["status"@, "--porcelain"@, "--untracked-files=no"@],
            ),
        },
        SyncPhase::Status => match reply {
            GitReply::Failed(e) => sync_over(s, "skipped (git status failed): "@ + e),
            GitReply::Out(t) => if trim(t).len() > 0 {
                sync_over(s, "skipped (principal has uncommitted changes)"@)
            } else {
                sync_git(s, SyncPhase::Branch, seq!["rev-parse"@, "--abbrev-ref"@, "HEAD"@])
            },
        },
        SyncPhase::Branch => match reply {
            GitReply::Failed(e) => sync_over(s, "skipped (branch detect failed): "@ + e),
            GitReply::Out(t) => if trim(t) != s.base {
                sync_over(
                    s,
                    "skipped (on branch '"@ + trim(t) + "', expected '"@ + s.base + "')"@,
                )
            } else {
                (
                    SyncState { phase: SyncPhase::Fetch, ..s },
                    SyncAction::GitWithToken(seq!["fetch"@, s.url, s.base]),
                )
            },
        },
        SyncPhase::Fetch => match reply {
            GitReply::Failed(e) => sync_over(s, "fetch failed: "@ + e),
            GitReply::Out(_) => sync_git(s, SyncPhase::Before, head_short()),
        },
        SyncPhase::Before => sync_git(
            SyncState { before: short_or_unknown(reply), ..s },
            SyncPhase::Merge,
            seq!["merge"@, "--ff-only"@, "FETCH_HEAD"@],
        ),
        SyncPhase::Merge => match reply {
            GitReply::Failed(e) => sync_over(s, "ff-only merge failed: "@ + e),
            GitReply::Out(_) => sync_git(s, SyncPhase::After, head_short()),
        },
        SyncPhase::After => sync_over(
            s,
            "fast-forwarded "@ + s.before + " -> "@ + short_or_unknown(reply) + " from "@ + (s.url
                + ":"@ + s.base),
        ),
        SyncPhase::Over => sync_over(s, Seq::empty()),
    }
}

/// The short name of a commit, or a question mark.
pub open spec fn short_or_unknown(reply: GitReply<Seq<char>>) -> Seq<char> {
    match reply {
        GitReply::Out(t) => trim(t),
        GitReply::Failed(_) => "?"@,
    }
}

/// It is over.
fn finish(s: SyncState<String>, line: &str) -> (r: SyncStep)
    ensures
        sync_step_view(r) == sync_over(sync_view(s), line@),
{
    let mut s = s;
    s.phase = SyncPhase::Over;
    (s, SyncAction::Finish(cat2("principal_sync: ", line)))
}

/// A git command of three arguments comes next.
fn git3(s: SyncState<String>, phase: SyncPhase, a: &str, b: &str, c: &str) -> (r: SyncStep)
    ensures
        sync_step_view(r) == sync_git(sync_view(s), phase, seq![a@, b@, c@]),
{
    let mut s = s;
    s.phase = phase;
    let all = [a, b, c];
    let list = texts(&all);
    proof {
        assert(views(list@) =~= seq![a@, b@, c@]);
    }
    (s, SyncAction::Git(list))
}

/// The short name of a commit, or a question mark.
fn short_name(reply: &GitReply<String>) -> (r: String)
    ensures
        r@ == short_or_unknown(git_reply_view(*reply)),
{
    match reply {
        GitReply::Out(t) => str_trim(t.as_str()).to_owned(),
        GitReply::Failed(_) => "?".to_owned(),
    }
}

/// Begins to bring a principal's checkout up to date with the base at the URL.
pub fn begin_principal_sync(base_branch: &str, source_remote_url: &str) -> (r: SyncStep)
    ensures
        sync_step_view(r) == (
            SyncState {
                phase: SyncPhase::Inside,
                base: base_branch@,
                url: source_remote_url@,
                before: Seq::empty(),
            },
            SyncAction::<Seq<char>, Seq<Seq<char>>>::Git(
                seq!["rev-parse"@, "--is-inside-work-tree"@],
            ),
        ),
{
    let a = ["rev-parse", "--is-inside-work-tree"];
    let list = texts(&a);
    proof {
        assert(views(list@) =~= seq!["rev-parse"@, "--is-inside-work-tree"@]);
    }
    let s = SyncState {
        phase: SyncPhase::Inside,
        base: base_branch.to_owned(),
        url: source_remote_url.to_owned(),
        before: String::new(),
    };
    proof {
        assert(s.before@ =~= Seq::<char>::empty());
    }
    (s, SyncAction::Git(list))
}

/// Takes the bringing up to date on from an answer of git.
pub fn best_effort_sync_principal(s: SyncState<String>, reply: GitReply<String>) -> (r: SyncStep)
    requires
        s.phase != SyncPhase::Over,
    ensures
        sync_step_view(r) == sync_next(sync_view(s), git_reply_view(reply)),
{
    match s.phase {
        SyncPhase::Inside => match reply {
            GitReply::Failed(e) => {
                let m = cat2("skipped (not a git repo): ", e.as_str());
                finish(s, m.as_str())
            },
            GitReply::Out(_) => git3(
                s,
                SyncPhase::Status,
                "status",
                "--porcelain",
                "--untracked-files=no",
            ),
        },
        SyncPhase::Status => match reply {
            GitReply::Failed(e) => {
                let m = cat2("skipped (git status failed): ", e.as_str());
                finish(s, m.as_str())
            },
            GitReply::Out(t) => if !str_trim(t.as_str()).is_empty() {
                finish(s, "skipped (principal has uncommitted changes)")
            } else {
                git3(s, SyncPhase::Branch, "rev-parse", "--abbrev-ref", "HEAD")
            },
        },
        SyncPhase::Branch => match reply {
            GitReply::Failed(e) => {
                let m = cat2("skipped (branch detect failed): ", e.as_str());
                finish(s, m.as_str())
            },
            GitReply::Out(t) => {
                let branch = str_trim(t.as_str());
                if !str_eq(branch, s.base.as_str()) {
                    let m = cat5(
                        "skipped (on branch '",
                        branch,
                        "', expected '",
                        s.base.as_str(),
                        "')",
                    );
                    finish(s, m.as_str())
                } else {
                    let a = ["fetch", s.url.as_str(), s.base.as_str()];
                    let list = texts(&a);
                    proof {
                        assert(views(list@) =~= seq!["fetch"@, s.url@, s.base@]);
                    }
                    let mut s = s;
                    s.phase = SyncPhase::Fetch;
                    (s, SyncAction::GitWithToken(list))
                }
            },
        },
        SyncPhase::Fetch => match reply {
            GitReply::Failed(e) => {
                let m = cat2("fetch failed: ", e.as_str());
                finish(s, m.as_str())
            },
            GitReply::Out(_) => git3(s, SyncPhase::Before, "rev-parse", "--short", "HEAD"),
        },
        SyncPhase::Before => {
            let mut s = s;
            s.before = short_name(&reply);
            git3(s, SyncPhase::Merge, "merge", "--ff-only", "FETCH_HEAD")
        },
        SyncPhase::Merge => match reply {
            GitReply::Failed(e) => {
                let m = cat2("ff-only merge failed: ", e.as_str());
                finish(s, m.as_str())
            },
            GitReply::Out(_) => git3(s, SyncPhase::After, "rev-parse", "--short", "HEAD"),
        },
        SyncPhase::After => {
            let after = short_name(&reply);
            let source = cat3(s.url.as_str(), ":", s.base.as_str());
            let head = cat4("fast-forwarded ", s.before.as_str(), " -> ", after.as_str());
            let m = cat3(head.as_str(), " from ", source.as_str());
            finish(s, m.as_str())
        },
        SyncPhase::Over => finish(s, ""),
    }
}

/// A principal's checkout is merged into only by fast-forwarding, after it was seen to be clean and on
/// the base and the base was fetched.
pub proof fn law_principal_is_only_fast_forwarded(s: SyncSpec, reply: GitReply<Seq<char>>)
    requires
        s.phase != SyncPhase::Over,
        sync_next(s, reply).0.phase == SyncPhase::Merge || sync_next(s, reply).0.phase
            == SyncPhase::Fetch,
    ensures
        sync_next(s, reply).0.phase == SyncPhase::Merge ==> s.phase == SyncPhase::Before && sync_next(
            s,
            reply,
        ).1 == SyncAction::<Seq<char>, Seq<Seq<char>>>::Git(
            seq!["merge"@, "--ff-only"@, "FETCH_HEAD"@],
        ),
        sync_next(s, reply).0.phase == SyncPhase::Fetch ==> s.phase == SyncPhase::Branch && (reply
            matches GitReply::Out(t) && trim(t) == s.base),
{
}

/// The principal's checkout is brought up to date exactly where it is a clean checkout of the base: any
/// other is skipped, and each step that fails ends it there. What is merged is what was just fetched from
/// the URL.
pub proof fn law_principals_are_synced_where_clean(
    s: SyncSpec,
    out: Seq<char>,
    e: Seq<char>,
    reply: GitReply<Seq<char>>,
)
    ensures
        s.phase == SyncPhase::Inside ==> sync_next(s, GitReply::Out(out)).1 == SyncAction::<
            Seq<char>,
            Seq<Seq<char>>,
        >::Git(seq!["status"@, "--porcelain"@, "--untracked-files=no"@]),
        s.phase == SyncPhase::Status ==> (if trim(out).len() > 0 {
            sync_next(s, GitReply::Out(out)).1 is Finish
        } else {
            sync_next(s, GitReply::Out(out)).1 == SyncAction::<Seq<char>, Seq<Seq<char>>>::Git(
                seq!["rev-parse"@, "--abbrev-ref"@, "HEAD"@],
            )
        }),
        s.phase == SyncPhase::Branch ==> (if trim(out) == s.base {
            sync_next(s, GitReply::Out(out)).1 == SyncAction::<Seq<char>, Seq<Seq<char>>>::GitWithToken(
                seq!["fetch"@, s.url, s.base],
            )
        } else {
            sync_next(s, GitReply::Out(out)).1 is Finish
        }),
        s.phase == SyncPhase::Fetch ==> sync_next(s, GitReply::Out(out)).0.phase == SyncPhase::Before
            && sync_next(sync_next(s, GitReply::Out(out)).0, reply).1 == SyncAction::<
            Seq<char>,
            Seq<Seq<char>>,
        >::Git(seq!["merge"@, "--ff-only"@, "FETCH_HEAD"@]),
        s.phase == SyncPhase::Inside || s.phase == SyncPhase::Status || s.phase == SyncPhase::Branch
            || s.phase == SyncPhase::Fetch || s.phase == SyncPhase::Merge ==> sync_next(
            s,
            GitReply::Failed(e),
        ).1 is Finish,
        s.phase == SyncPhase::Merge ==> sync_next(s, GitReply::Out(out)).0.phase == SyncPhase::After,
        s.phase == SyncPhase::After ==> sync_next(s, GitReply::Out(out)).1 == SyncAction::<
            Seq<char>,
            Seq<Seq<char>>,
        >::Finish(
            "principal_sync: "@ + ("fast-forwarded "@ + s.before + " -> "@ + trim(out) + " from "@ + (
            s.url + ":"@ + s.base)),
        ),
{
}

/// The bringing up to date is over when it says so, and not before; it keeps its base and its URL, and only
/// the fetch is given the token.
pub proof fn law_syncs_end_when_they_say(s: SyncSpec, reply: GitReply<Seq<char>>)
    requires
        s.phase != SyncPhase::Over,
    ensures
        ({
            let n = sync_next(s, reply);
            &&& n.1 is Finish <==> n.0.phase == SyncPhase::Over
            &&& n.1 is GitWithToken <==> n.0.phase == SyncPhase::Fetch
            &&& n.0.base == s.base && n.0.url == s.url
            &&& n.0.phase == SyncPhase::Status ==> s.phase == SyncPhase::Inside
            &&& n.0.phase == SyncPhase::Branch ==> s.phase == SyncPhase::Status
            &&& n.0.phase == SyncPhase::Fetch ==> s.phase == SyncPhase::Branch
            &&& n.0.phase == SyncPhase::Before ==> s.phase == SyncPhase::Fetch
            &&& n.0.phase == SyncPhase::Merge ==> s.phase == SyncPhase::Before
            &&& n.0.phase == SyncPhase::After ==> s.phase == SyncPhase::Merge
        }),
{
}

/// A commit is told by its short name, and by a question mark where that is not known.
pub proof fn law_commits_are_told_by_their_short_names(t: Seq<char>, e: Seq<char>)
    ensures
        short_or_unknown(GitReply::Out(t)) == trim(t),
        short_or_unknown(GitReply::Failed(e)) == "?"@,
{
}

} // verus!
