//! One deploy from beginning to end: checked out, built, held to the schema, taken into service.

use crate::deploy::{
    beside_text, can_shorten, deploy_release_root, is_managed_repo, log_name, managed,
    managed_repo_from_override, release_root, short_sha, shortened, DEFAULT_FORGEJOCTL_BIN,
    DEFAULT_ORCHD_BIN, DeployJob,
};
use crate::paths::{expand_tilde_path, expanded, join_path, joined, text_result};
use crate::repo::{forgejo_http_git_url, git_url_result, path_beside, DEFAULT_GIT_REMOTE};
use crate::template::{pairs, render_prompt, rendered};
use crate::text::{
    cat2, cat3, cat6, cat7, clone_opt, decimal_int, i64_text, lower, opt_view, str_lower, texts,
    views,
};
use crate::types::{repo_parts, repo_text, RepoRef};
use vstd::prelude::*;
use vstd::string::*;

verus! {

/// The login under which deploys work: that of the token, in lower case.
pub fn machine_login(answer: &Result<Option<String>, String>) -> (r: Result<String, String>)
    ensures
        match *answer {
            Ok(Some(x)) => r matches Ok(y) && y@ == lower(x@),
            Ok(None) => r matches Err(e) && e@ == "whoami response missing login field"@,
            Err(x) => r matches Err(e) && e@ == "whoami failed: "@ + x@,
        },
{
    match answer {
        Ok(Some(x)) => Ok(str_lower(x.as_str())),
        Ok(None) => Err("whoami response missing login field".to_owned()),
        Err(x) => Err(cat2("whoami failed: ", x.as_str())),
    }
}

/// Which answer the checking out of a commit waits for.
#[derive(Clone, Copy, PartialEq, Eq, Structural)]
pub enum FetchPhase {
    SetUrl,
    Clone,
    Fetch,
    Probe,
    FetchCommit,
    Checkout,
    Over,
}

/// Where the checking out of a commit stands.
#[verifier::ext_equal]
pub struct Fetching<S> {
    pub phase: FetchPhase,
    pub checkout: S,
    pub branch: S,
    pub sha: S,
}

/// What is done next.
#[verifier::ext_equal]
pub enum FetchAction<S, L> {
    /// A git command in the checkout.
    Git(L),
    /// A git command in the checkout, with the token.
    GitWithToken(L),
    /// The directory above the checkout is made, then a git command runs with the token.
    MakeParentAndGit(L),
    /// The commit is checked out.
    Ready(S),
    /// It is not.
    GiveUp(S),
}

/// What git answered.
#[verifier::ext_equal]
pub enum FetchReply<S> {
    Done,
    /// The directory above the checkout could not be made.
    NoParent(S),
    Failed(S),
}

/// A step in contracts.
pub type FetchStepSpec = (Fetching<Seq<char>>, FetchAction<Seq<char>, Seq<Seq<char>>>);

/// A step at run time.
pub type FetchStep = (Fetching<String>, FetchAction<String, Vec<String>>);

/// The view of a state.
pub open spec fn fetching_view(s: Fetching<String>) -> Fetching<Seq<char>> {
    Fetching { phase: s.phase, checkout: s.checkout@, branch: s.branch@, sha: s.sha@ }
}

/// The view of a step.
pub open spec fn fetch_step_view(r: FetchStep) -> FetchStepSpec {
    (
        fetching_view(r.0),
        match r.1 {
            FetchAction::Git(l) => FetchAction::Git(views(l@)),
            FetchAction::GitWithToken(l) => FetchAction::GitWithToken(views(l@)),
            FetchAction::MakeParentAndGit(l) => FetchAction::MakeParentAndGit(views(l@)),
            FetchAction::Ready(t) => FetchAction::Ready(t@),
            FetchAction::GiveUp(t) => FetchAction::GiveUp(t@),
        },
    )
}

/// The view of an answer.
pub open spec fn fetch_reply_view(r: FetchReply<String>) -> FetchReply<Seq<char>> {
    match r {
        FetchReply::Done => FetchReply::Done,
        FetchReply::NoParent(t) => FetchReply::NoParent(t@),
        FetchReply::Failed(t) => FetchReply::Failed(t@),
    }
}

/// The checking out is given up.
pub open spec fn fetch_over(s: Fetching<Seq<char>>, error: Seq<char>) -> FetchStepSpec {
    (Fetching { phase: FetchPhase::Over, ..s }, FetchAction::GiveUp(error))
}

/// The branch is fetched.
pub open spec fn fetch_branch(s: Fetching<Seq<char>>) -> FetchStepSpec {
    (
        Fetching { phase: FetchPhase::Fetch, ..s },
        FetchAction::GitWithToken(seq!["fetch"@, DEFAULT_GIT_REMOTE@, s.branch]),
    )
}

/// The commit is checked out, whatever stands in the way.
pub open spec fn fetch_checkout(s: Fetching<Seq<char>>) -> FetchStepSpec {
    (
        Fetching { phase: FetchPhase::Checkout, ..s },
        FetchAction::Git(seq!["checkout"@, "-f"@, "--detach"@, s.sha]),
    )
}

/// How the checking out of a commit begins: a checkout that is there is pointed to the forge, and one
/// that is not is cloned.
pub open spec fn fetch_begun(
    s: Fetching<Seq<char>>,
    url: Seq<char>,
    is_git_repo: bool,
    is_there: bool,
) -> FetchStepSpec {
    if is_git_repo {
        (
            Fetching { phase: FetchPhase::SetUrl, ..s },
            FetchAction::Git(seq!["remote"@, "set-url"@, DEFAULT_GIT_REMOTE@, url]),
        )
    } else if is_there {
        fetch_over(s, "deploy checkout path exists but is not a git repo: "@ + s.checkout)
    } else {
        (
            Fetching { phase: FetchPhase::Clone, ..s },
            FetchAction::MakeParentAndGit(
                seq!["clone"@, "--origin"@, DEFAULT_GIT_REMOTE@, url, s.checkout],
            ),
        )
    }
}

/// How the checking out of a commit goes on from an answer.
pub open spec fn fetch_next(s: Fetching<Seq<char>>, reply: FetchReply<Seq<char>>) -> FetchStepSpec {
    match s.phase {
        FetchPhase::SetUrl => fetch_branch(s),
        FetchPhase::Clone => match reply {
            FetchReply::Done => fetch_branch(s),
            FetchReply::NoParent(e) => fetch_over(s, e),
            FetchReply::Failed(e) => fetch_over(s, "deploy clone failed: "@ + e),
        },
        FetchPhase::Fetch => match reply {
            FetchReply::Failed(e) => fetch_over(s, "deploy fetch failed: "@ + e),
            _ => (
                Fetching { phase: FetchPhase::Probe, ..s },
                FetchAction::Git(seq!["cat-file"@, "-e"@, s.sha + "^{commit}"@]),
            ),
        },
        FetchPhase::Probe => match reply {
            FetchReply::Failed(_) => (
                Fetching { phase: FetchPhase::FetchCommit, ..s },
                FetchAction::GitWithToken(seq!["fetch"@, DEFAULT_GIT_REMOTE@, s.sha]),
            ),
            _ => fetch_checkout(s),
        },
        FetchPhase::FetchCommit => fetch_checkout(s),
        FetchPhase::Checkout => match reply {
            FetchReply::Failed(e) => fetch_over(s, "deploy checkout failed: "@ + e),
            _ => (Fetching { phase: FetchPhase::Over, ..s }, FetchAction::Ready(s.checkout)),
        },
        FetchPhase::Over => fetch_over(s, Seq::empty()),
    }
}

/// The checking out is given up.
fn give_up(s: Fetching<String>, error: String) -> (r: FetchStep)
    ensures
        fetch_step_view(r) == fetch_over(fetching_view(s), error@),
{
    let mut s = s;
    s.phase = FetchPhase::Over;
    (s, FetchAction::GiveUp(error))
}

/// The branch is fetched.
fn get_branch(s: Fetching<String>) -> (r: FetchStep)
    ensures
        fetch_step_view(r) == fetch_branch(fetching_view(s)),
{
    let a = ["fetch", DEFAULT_GIT_REMOTE, s.branch.as_str()];
    let list = texts(&a);
    proof {
        assert(views(list@) =~= seq!["fetch"@, DEFAULT_GIT_REMOTE@, s.branch@]);
    }
    let mut s = s;
    s.phase = FetchPhase::Fetch;
    (s, FetchAction::GitWithToken(list))
}

/// The commit is checked out.
fn check_out(s: Fetching<String>) -> (r: FetchStep)
    ensures
        fetch_step_view(r) == fetch_checkout(fetching_view(s)),
{
    let a = ["checkout", "-f", "--detach", s.sha.as_str()];
    let list = texts(&a);
    proof {
        assert(views(list@) =~= seq!["checkout"@, "-f"@, "--detach"@, s.sha@]);
    }
    let mut s = s;
    s.phase = FetchPhase::Checkout;
    (s, FetchAction::Git(list))
}

/// Begins to check a commit out; or says why it cannot be.
pub fn begin_checkout_at_sha(
    base_url: &str,
    login: &str,
    repo_full_name: &str,
    checkout: &Result<String, String>,
    branch: &str,
    sha: &str,
    is_git_repo: bool,
    is_there: bool,
) -> (r: Result<FetchStep, String>)
    ensures
        match (git_url_result(base_url@, login@, repo_full_name@), *checkout) {
            (Err(m), _) => r matches Err(e) && e@ == m,
            (Ok(_), Err(m)) => r matches Err(e) && e@ == m@,
            (Ok(url), Ok(path)) => r matches Ok(x) && fetch_step_view(x) == fetch_begun(
                (Fetching {
                    phase: FetchPhase::Over,
                    checkout: path@,
                    branch: branch@,
                    sha: sha@,
                }),
                url,
                is_git_repo,
                is_there,
            ),
        },
{
    let url = match forgejo_http_git_url(base_url, login, repo_full_name) {
        Ok(u) => u,
        Err(e) => {
            return Err(e.message());
        },
    };
    let path = match checkout {
        Ok(p) => p.clone(),
        Err(e) => {
            return Err(e.clone());
        },
    };
    let mut s = Fetching {
        phase: FetchPhase::Over,
        checkout: path,
        branch: branch.to_owned(),
        sha: sha.to_owned(),
    };
    if is_git_repo {
        let a = ["remote", "set-url", DEFAULT_GIT_REMOTE, url.as_str()];
        let list = texts(&a);
        proof {
            assert(views(list@) =~= seq!["remote"@, "set-url"@, DEFAULT_GIT_REMOTE@, url@]);
        }
        s.phase = FetchPhase::SetUrl;
        Ok((s, FetchAction::Git(list)))
    } else if is_there {
        let m = cat2("deploy checkout path exists but is not a git repo: ", s.checkout.as_str());
        Ok(give_up(s, m))
    } else {
        let a = ["clone", "--origin", DEFAULT_GIT_REMOTE, url.as_str(), s.checkout.as_str()];
        let list = texts(&a);
        proof {
            assert(views(list@) =~= seq![
                "clone"@,
                "--origin"@,
                DEFAULT_GIT_REMOTE@,
                url@,
                s.checkout@,
            ]);
        }
        s.phase = FetchPhase::Clone;
        Ok((s, FetchAction::MakeParentAndGit(list)))
    }
}

/// Takes the checking out of a commit on from an answer of git.
pub fn ensure_checkout_at_sha(s: Fetching<String>, reply: FetchReply<String>) -> (r: FetchStep)
    requires
        s.phase != FetchPhase::Over,
    ensures
        fetch_step_view(r) == fetch_next(fetching_view(s), fetch_reply_view(reply)),
{
    match s.phase {
        FetchPhase::SetUrl => get_branch(s),
        FetchPhase::Clone => match reply {
            FetchReply::Done => get_branch(s),
            FetchReply::NoParent(e) => give_up(s, e),
            FetchReply::Failed(e) => {
                let m = cat2("deploy clone failed: ", e.as_str());
                give_up(s, m)
            },
        },
        FetchPhase::Fetch => match reply {
            FetchReply::Failed(e) => {
                let m = cat2("deploy fetch failed: ", e.as_str());
                give_up(s, m)
            },
            _ => {
                let object = cat2(s.sha.as_str(), "^{commit}");
                let a = ["cat-file", "-e", object.as_str()];
                let list = texts(&a);
                proof {
                    assert(views(list@) =~= seq!["cat-file"@, "-e"@, s.sha@ + "^{commit}"@]);
                }
                let mut s = s;
                s.phase = FetchPhase::Probe;
                (s, FetchAction::Git(list))
            },
        },
        FetchPhase::Probe => match reply {
            FetchReply::Failed(_) => {
                let a = ["fetch", DEFAULT_GIT_REMOTE, s.sha.as_str()];
                let list = texts(&a);
                proof {
                    assert(views(list@) =~= seq!["fetch"@, DEFAULT_GIT_REMOTE@, s.sha@]);
                }
                let mut s = s;
                s.phase = FetchPhase::FetchCommit;
                (s, FetchAction::GitWithToken(list))
            },
            _ => check_out(s),
        },
        FetchPhase::FetchCommit => check_out(s),
        FetchPhase::Checkout => match reply {
            FetchReply::Failed(e) => {
                let m = cat2("deploy checkout failed: ", e.as_str());
                give_up(s, m)
            },
            _ => {
                let path = s.checkout.clone();
                let mut s = s;
                s.phase = FetchPhase::Over;
                (s, FetchAction::Ready(path))
            },
        },
        FetchPhase::Over => {
            let m = String::new();
            proof {
                assert(m@ =~= Seq::<char>::empty());
            }
            give_up(s, m)
        },
    }
}

/// What a deploy works on.
#[verifier::ext_equal]
pub struct DeployInput<S> {
    pub worker_identity: S,
    pub db_path: S,
    /// The setting of the managed repository.
    pub managed_repo: Option<S>,
    /// The setting of where the orchestrator is installed.
    pub orchd_bin: Option<S>,
    /// The setting of where the forge's command line tool is installed.
    pub forgejoctl_bin: Option<S>,
    pub home: Option<S>,
    pub job_id: i64,
    pub repo: S,
    pub branch: S,
    pub sha: S,
    pub attempt_count: i64,
}

/// Which answer a deploy waits for.
#[derive(Clone, Copy, PartialEq, Eq, Structural)]
pub enum DeployPhase {
    RunDir,
    Checkout,
    ReleaseRoot,
    Build,
    Guard,
    ReadState,
    Activate,
    WriteState,
    WriteLog,
    Over,
}

/// Where a deploy stands.
#[verifier::ext_equal]
pub struct DeployState<S> {
    pub phase: DeployPhase,
    pub input: DeployInput<S>,
    pub log: S,
    pub log_path: Option<S>,
    pub checkout: Option<S>,
    pub release_dir: S,
    pub orchd_dest: S,
    pub forgejoctl_dest: S,
    pub previous_active: Option<S>,
}

/// How a deploy failed.
#[verifier::ext_equal]
pub struct DeployFailure<S> {
    pub reason_code: S,
    pub error_text: S,
    pub checkout_path: Option<S>,
    pub log_path: Option<S>,
    pub rollback_status: S,
}

/// What is done next.
#[verifier::ext_equal]
pub enum DeployAction<S> {
    /// Make the directory of the logs.
    MakeRunDir(S),
    /// Check the commit out, as a recorded phase.
    Checkout,
    /// Make the directory of the releases.
    MakeReleaseRoot(S),
    /// Build the release, as a recorded phase.
    Build { checkout: S, release_dir: S },
    /// Hold the release to the schema of the database, as a recorded phase.
    Guard,
    /// Read what is in service.
    ReadState,
    /// Take the release into service, as a recorded phase.
    Activate { orchd_dest: S, forgejoctl_dest: S, rollback_dir: S },
    /// Record what is in service, and what was before.
    WriteState { active: S, previous: Option<S> },
    /// Write the log.
    WriteLog(S),
    /// The deploy is done.
    Succeed { checkout: S, log_path: S },
    /// It failed; the log is written where there is a path for it.
    Fail { failure: DeployFailure<S>, log: S },
}

/// An answer from outside.
#[verifier::ext_equal]
pub enum DeployReply<S> {
    Done,
    Path(S),
    /// Done, with what the log gets.
    Logged(S),
    State { active: Option<S>, previous: Option<S> },
    /// Failed, with what the log gets.
    Failed { log: S, error: S },
    /// Failed, with what the log gets and how the service stands.
    NotInService { log: S, error: S, status: S },
}

/// The answers that fit a phase.
pub open spec fn deploy_fits<S>(phase: DeployPhase, reply: DeployReply<S>) -> bool {
    match phase {
        DeployPhase::Checkout => reply is Path || reply is Failed,
        DeployPhase::Build => reply is Logged || reply is Failed,
        DeployPhase::Guard => reply is Logged || reply is Failed,
        DeployPhase::ReadState => reply is State || reply is Failed,
        DeployPhase::Activate => reply is Logged || reply is NotInService,
        DeployPhase::Over => false,
        _ => reply is Done || reply is Failed,
    }
}

/// A deploy in contracts.
pub type DeploySpec = DeployState<Seq<char>>;

/// A step in contracts.
pub type DeployStepSpec = (DeploySpec, DeployAction<Seq<char>>);

/// A step at run time.
pub type DeployStep = (DeployState<String>, DeployAction<String>);

/// The view of an input.
pub open spec fn deploy_input_view(i: DeployInput<String>) -> DeployInput<Seq<char>> {
    DeployInput {
        worker_identity: i.worker_identity@,
        db_path: i.db_path@,
        managed_repo: opt_view(i.managed_repo),
        orchd_bin: opt_view(i.orchd_bin),
        forgejoctl_bin: opt_view(i.forgejoctl_bin),
        home: opt_view(i.home),
        job_id: i.job_id,
        repo: i.repo@,
        branch: i.branch@,
        sha: i.sha@,
        attempt_count: i.attempt_count,
    }
}

/// The view of a deploy.
pub open spec fn deploy_view(s: DeployState<String>) -> DeploySpec {
    DeployState {
        phase: s.phase,
        input: deploy_input_view(s.input),
        log: s.log@,
        log_path: opt_view(s.log_path),
        checkout: opt_view(s.checkout),
        release_dir: s.release_dir@,
        orchd_dest: s.orchd_dest@,
        forgejoctl_dest: s.forgejoctl_dest@,
        previous_active: opt_view(s.previous_active),
    }
}

/// The view of a failure.
pub open spec fn failure_view(f: DeployFailure<String>) -> DeployFailure<Seq<char>> {
    DeployFailure {
        reason_code: f.reason_code@,
        error_text: f.error_text@,
        checkout_path: opt_view(f.checkout_path),
        log_path: opt_view(f.log_path),
        rollback_status: f.rollback_status@,
    }
}

/// The view of a step.
pub open spec fn deploy_step_view(r: DeployStep) -> DeployStepSpec {
    (
        deploy_view(r.0),
        match r.1 {
            DeployAction::MakeRunDir(t) => DeployAction::MakeRunDir(t@),
            DeployAction::Checkout => DeployAction::Checkout,
            DeployAction::MakeReleaseRoot(t) => DeployAction::MakeReleaseRoot(t@),
            DeployAction::Build { checkout, release_dir } => DeployAction::Build {
                checkout: checkout@,
                release_dir: release_dir@,
            },
            DeployAction::Guard => DeployAction::Guard,
            DeployAction::ReadState => DeployAction::ReadState,
            DeployAction::Activate { orchd_dest, forgejoctl_dest, rollback_dir } => DeployAction::Activate {
                orchd_dest: orchd_dest@,
                forgejoctl_dest: forgejoctl_dest@,
                rollback_dir: rollback_dir@,
            },
            DeployAction::WriteState { active, previous } => DeployAction::WriteState {
                active: active@,
                previous: opt_view(previous),
            },
            DeployAction::WriteLog(t) => DeployAction::WriteLog(t@),
            DeployAction::Succeed { checkout, log_path } => DeployAction::Succeed {
                checkout: checkout@,
                log_path: log_path@,
            },
            DeployAction::Fail { failure, log } => DeployAction::Fail {
                failure: failure_view(failure),
                log: log@,
            },
        },
    )
}

/// The view of an answer.
pub open spec fn deploy_reply_view(r: DeployReply<String>) -> DeployReply<Seq<char>> {
    match r {
        DeployReply::Done => DeployReply::Done,
        DeployReply::Path(t) => DeployReply::Path(t@),
        DeployReply::Logged(t) => DeployReply::Logged(t@),
        DeployReply::State { active, previous } => DeployReply::State {
            active: opt_view(active),
            previous: opt_view(previous),
        },
        DeployReply::Failed { log, error } => DeployReply::Failed { log: log@, error: error@ },
        DeployReply::NotInService { log, error, status } => DeployReply::NotInService {
            log: log@,
            error: error@,
            status: status@,
        },
    }
}

/// The deploy fails: the log tells why.
pub open spec fn deploy_failed(
    s: DeploySpec,
    reason: Seq<char>,
    error: Seq<char>,
    rollback: Seq<char>,
) -> DeployStepSpec {
    let log = s.log + ("failure_reason="@ + reason + "\n"@) + ("failure_error="@ + error + "\n"@);
    (
        DeployState { phase: DeployPhase::Over, log, ..s },
        DeployAction::Fail {
            failure: DeployFailure {
                reason_code: reason,
                error_text: error,
                checkout_path: s.checkout,
                log_path: s.log_path,
                rollback_status: rollback,
            },
            log,
        },
    )
}

/// The deploy fails before it has a log.
pub open spec fn deploy_failed_early(s: DeploySpec, error: Seq<char>) -> DeployStepSpec {
    (
        DeployState { phase: DeployPhase::Over, ..s },
        DeployAction::Fail {
            failure: DeployFailure {
                reason_code: "deploy_log_path_failed"@,
                error_text: error,
                checkout_path: None,
                log_path: None,
                rollback_status: "not_attempted"@,
            },
            log: s.log,
        },
    )
}

/// The deploy goes on to a phase.
pub open spec fn deploy_to(
    s: DeploySpec,
    phase: DeployPhase,
    action: DeployAction<Seq<char>>,
) -> DeployStepSpec {
    (DeployState { phase, ..s }, action)
}

/// What the log of a deploy begins with.
pub open spec fn log_head(i: DeployInput<Seq<char>>) -> Seq<char> {
    "worker_identity="@ + i.worker_identity + "\nrepo="@ + i.repo + "\nbranch="@ + i.branch
        + "\ntarget_sha="@ + i.sha + "\ndeploy_job_id="@ + decimal_int(i.job_id as int) + "\n"@
}

/// The state in which a deploy begins.
pub open spec fn deploy_fresh(input: DeployInput<Seq<char>>) -> DeploySpec {
    DeployState {
        phase: DeployPhase::Over,
        input,
        log: Seq::empty(),
        log_path: None,
        checkout: None,
        release_dir: Seq::empty(),
        orchd_dest: Seq::empty(),
        forgejoctl_dest: Seq::empty(),
        previous_active: None,
    }
}

/// How a deploy begins: with the directory of its log.
pub open spec fn deploy_begun(input: DeployInput<Seq<char>>) -> DeployStepSpec {
    let s = deploy_fresh(input);
    match beside_text(input.db_path, "deploy-runs"@) {
        Ok(root) => deploy_to(
            DeployState { log_path: Some(joined(root, log_name(input.job_id))), ..s },
            DeployPhase::RunDir,
            DeployAction::MakeRunDir(root),
        ),
        Err(m) => deploy_failed_early(s, m),
    }
}

/// After the directory of the logs is there: nothing but the managed repository is deployed.
pub open spec fn after_run_dir(s: DeploySpec, reply: DeployReply<Seq<char>>) -> DeployStepSpec {
    match reply {
        DeployReply::Failed { error, .. } => deploy_failed_early(s, error),
        _ => {
            let n = DeployState { log: log_head(s.input), ..s };
            match repo_parts(s.input.repo) {
                None => deploy_failed(
                    n,
                    "deploy_invalid_repo"@,
                    "invalid repo ref '"@ + s.input.repo + "'; expected owner/repo"@,
                    "not_attempted"@,
                ),
                Some(p) => if p != managed(s.input.managed_repo) {
                    deploy_failed(
                        n,
                        "deploy_repo_not_managed"@,
                        "repo "@ + s.input.repo + " is not deploy-managed"@,
                        "not_attempted"@,
                    )
                } else {
                    deploy_to(n, DeployPhase::Checkout, DeployAction::Checkout)
                },
            }
        },
    }
}

/// After the commit was checked out.
pub open spec fn after_checkout(s: DeploySpec, reply: DeployReply<Seq<char>>) -> DeployStepSpec {
    match reply {
        DeployReply::Path(path) => {
            let n = DeployState { checkout: Some(path), ..s };
            match (beside_text(s.input.db_path, "deploy-releases"@), repo_parts(s.input.repo)) {
                (Ok(root), Some(p)) => {
                    let dir = release_root(root, p.0, p.1, s.input.branch);
                    deploy_to(
                        DeployState { release_dir: joined(dir, s.input.sha), ..n },
                        DeployPhase::ReleaseRoot,
                        DeployAction::MakeReleaseRoot(dir),
                    )
                },
                (Err(m), Some(_)) => deploy_failed(
                    n,
                    "deploy_release_dir_failed"@,
                    m,
                    "not_attempted"@,
                ),
                _ => arbitrary(),
            }
        },
        DeployReply::Failed { log, error } => deploy_failed(
            DeployState { log: s.log + log, ..s },
            "deploy_checkout_failed"@,
            error,
            "not_attempted"@,
        ),
        _ => arbitrary(),
    }
}

/// The deploy with more in its log.
pub open spec fn logged(s: DeploySpec, log: Seq<char>) -> DeploySpec {
    DeployState { log: s.log + log, ..s }
}

/// A setting, or what stands for it.
pub open spec fn setting_or(setting: Option<Seq<char>>, fallback: Seq<char>) -> Seq<char> {
    match setting {
        Some(x) => x,
        None => fallback,
    }
}

/// Where the two programs are installed.
pub open spec fn binary_paths(i: DeployInput<Seq<char>>) -> Result<(Seq<char>, Seq<char>), Seq<char>> {
    match expanded(setting_or(i.orchd_bin, DEFAULT_ORCHD_BIN@), i.home) {
        Err(m) => Err(m),
        Ok(a) => match expanded(setting_or(i.forgejoctl_bin, DEFAULT_FORGEJOCTL_BIN@), i.home) {
            Err(m) => Err(m),
            Ok(b) => Ok((a, b)),
        },
    }
}

/// How a deploy goes on from an answer.
pub open spec fn deploy_next(s: DeploySpec, reply: DeployReply<Seq<char>>) -> DeployStepSpec {
    match s.phase {
        DeployPhase::RunDir => after_run_dir(s, reply),
        DeployPhase::Checkout => after_checkout(s, reply),
        DeployPhase::ReleaseRoot => match reply {
            DeployReply::Failed { error, .. } => deploy_failed(
                s,
                "deploy_release_dir_failed"@,
                error,
                "not_attempted"@,
            ),
            _ => deploy_to(
                s,
                DeployPhase::Build,
                DeployAction::Build { checkout: s.checkout->0, release_dir: s.release_dir },
            ),
        },
        DeployPhase::Build => match reply {
            DeployReply::Logged(log) => deploy_to(
                logged(s, log),
                DeployPhase::Guard,
                DeployAction::Guard,
            ),
            DeployReply::Failed { log, error } => deploy_failed(
                logged(s, log),
                "deploy_build_failed"@,
                error,
                "not_attempted"@,
            ),
            _ => arbitrary(),
        },
        DeployPhase::Guard => match reply {
            DeployReply::Logged(log) => match binary_paths(s.input) {
                Ok(p) => deploy_to(
                    DeployState { orchd_dest: p.0, forgejoctl_dest: p.1, ..logged(s, log) },
                    DeployPhase::ReadState,
                    DeployAction::ReadState,
                ),
                Err(m) => deploy_failed(
                    logged(s, log),
                    "deploy_paths_failed"@,
                    m,
                    "not_attempted"@,
                ),
            },
            DeployReply::Failed { log, error } => deploy_failed(
                logged(s, log),
                "deploy_schema_downgrade_blocked"@,
                error,
                "not_attempted"@,
            ),
            _ => arbitrary(),
        },
        DeployPhase::ReadState => match reply {
            DeployReply::State { active, previous } => {
                let n = DeployState { previous_active: active, ..s };
                let m = match previous {
                    Some(p) => logged(n, "previous_previous_sha="@ + p + "\n"@),
                    None => n,
                };
                deploy_to(
                    m,
                    DeployPhase::Activate,
                    DeployAction::Activate {
                        orchd_dest: s.orchd_dest,
                        forgejoctl_dest: s.forgejoctl_dest,
                        rollback_dir: joined(
                            joined(s.release_dir, "rollback"@),
                            "attempt-"@ + decimal_int(s.input.attempt_count as int),
                        ),
                    },
                )
            },
            DeployReply::Failed { error, .. } => deploy_failed(
                s,
                "deploy_release_state_read_failed"@,
                error,
                "not_attempted"@,
            ),
            _ => arbitrary(),
        },
        DeployPhase::Activate => match reply {
            DeployReply::Logged(log) => deploy_to(
                logged(s, log),
                DeployPhase::WriteState,
                DeployAction::WriteState { active: s.input.sha, previous: s.previous_active },
            ),
            DeployReply::NotInService { log, error, status } => deploy_failed(
                logged(s, log),
                "deploy_activate_failed"@,
                error,
                status,
            ),
            _ => arbitrary(),
        },
        DeployPhase::WriteState => match reply {
            DeployReply::Failed { error, .. } => deploy_failed(
                s,
                "deploy_release_state_write_failed"@,
                error,
                "not_needed"@,
            ),
            _ => deploy_to(s, DeployPhase::WriteLog, DeployAction::WriteLog(s.log)),
        },
        DeployPhase::WriteLog => match reply {
            DeployReply::Failed { error, .. } => deploy_failed(
                s,
                "deploy_log_write_failed"@,
                error,
                "not_needed"@,
            ),
            _ => deploy_to(
                s,
                DeployPhase::Over,
                DeployAction::Succeed { checkout: s.checkout->0, log_path: s.log_path->0 },
            ),
        },
        DeployPhase::Over => deploy_failed_early(s, Seq::empty()),
    }
}

/// A deploy begins with an empty log; past its first steps it has a path for its log, a repository that
/// is managed, and a checkout.
pub open spec fn deploy_consistent(s: DeploySpec) -> bool {
    match s.phase {
        DeployPhase::Over => true,
        DeployPhase::RunDir => s.log_path is Some && s.log.len() == 0,
        DeployPhase::Checkout => s.log_path is Some && repo_parts(s.input.repo) == Some(
            managed(s.input.managed_repo),
        ),
        _ => s.log_path is Some && s.checkout is Some && repo_parts(s.input.repo) == Some(
            managed(s.input.managed_repo),
        ),
    }
}

/// The deploy goes on to a phase.
fn step_to(s: DeployState<String>, phase: DeployPhase, action: DeployAction<String>) -> (r: DeployStep)
    ensures
        r.0 == (DeployState { phase, ..s }),
        r.1 == action,
{
    let mut s = s;
    s.phase = phase;
    (s, action)
}

/// The deploy with more in its log.
fn log_more(s: DeployState<String>, text: &str) -> (r: DeployState<String>)
    ensures
        deploy_view(r) == logged(deploy_view(s), text@),
{
    let mut s = s;
    s.log.append(text);
    s
}

/// The deploy fails before it has a log.
fn fail_early(s: DeployState<String>, error: String) -> (r: DeployStep)
    ensures
        deploy_step_view(r) == deploy_failed_early(deploy_view(s), error@),
{
    let failure = DeployFailure {
        reason_code: "deploy_log_path_failed".to_owned(),
        error_text: error,
        checkout_path: None,
        log_path: None,
        rollback_status: "not_attempted".to_owned(),
    };
    let log = s.log.clone();
    step_to(s, DeployPhase::Over, DeployAction::Fail { failure, log })
}

/// The deploy fails: the log tells why.
pub fn deploy_failure_from_error(
    s: DeployState<String>,
    reason_code: &str,
    error: String,
    rollback_status: &str,
) -> (r: DeployStep)
    ensures
        deploy_step_view(r) == deploy_failed(deploy_view(s), reason_code@, error@, rollback_status@),
{
    let a = cat3("failure_reason=", reason_code, "\n");
    let b = cat3("failure_error=", error.as_str(), "\n");
    let mut s = s;
    s.log.append(a.as_str());
    s.log.append(b.as_str());
    let failure = DeployFailure {
        reason_code: reason_code.to_owned(),
        error_text: error,
        checkout_path: clone_opt(&s.checkout),
        log_path: clone_opt(&s.log_path),
        rollback_status: rollback_status.to_owned(),
    };
    let log = s.log.clone();
    step_to(s, DeployPhase::Over, DeployAction::Fail { failure, log })
}

/// Begins a deploy.
pub fn begin_deploy(input: DeployInput<String>) -> (r: DeployStep)
    ensures
        deploy_step_view(r) == deploy_begun(deploy_input_view(input)),
        deploy_consistent(deploy_view(r.0)),
{
    let mut s = DeployState {
        phase: DeployPhase::Over,
        input,
        log: String::new(),
        log_path: None,
        checkout: None,
        release_dir: String::new(),
        orchd_dest: String::new(),
        forgejoctl_dest: String::new(),
        previous_active: None,
    };
    proof {
        assert(s.log@ =~= Seq::<char>::empty());
        assert(deploy_view(s) =~= deploy_fresh(deploy_input_view(input)));
    }
    match path_beside(s.input.db_path.as_str(), "deploy-runs") {
        Ok(root) => {
            let n = i64_text(s.input.job_id);
            let name = cat3("deploy-", n.as_str(), ".log");
            s.log_path = Some(join_path(root.as_str(), name.as_str()));
            step_to(s, DeployPhase::RunDir, DeployAction::MakeRunDir(root))
        },
        Err(_) => fail_early(s, "db path has no parent".to_owned()),
    }
}

/// After the directory of the logs is there.
fn on_run_dir(s: DeployState<String>, reply: DeployReply<String>) -> (r: DeployStep)
    requires
        deploy_fits(DeployPhase::RunDir, reply),
        s.log_path is Some,
    ensures
        deploy_step_view(r) == after_run_dir(deploy_view(s), deploy_reply_view(reply)),
        deploy_consistent(deploy_view(r.0)),
{
    if let DeployReply::Failed { error, .. } = reply {
        return fail_early(s, error);
    }
    let n = i64_text(s.input.job_id);
    let mut log = cat7(
        "worker_identity=",
        s.input.worker_identity.as_str(),
        "\nrepo=",
        s.input.repo.as_str(),
        "\nbranch=",
        s.input.branch.as_str(),
        "\ntarget_sha=",
    );
    log.append(s.input.sha.as_str());
    log.append("\ndeploy_job_id=");
    log.append(n.as_str());
    log.append("\n");
    let mut s = s;
    s.log = log;
    match RepoRef::parse(s.input.repo.as_str()) {
        Err(e) => deploy_failure_from_error(s, "deploy_invalid_repo", e, "not_attempted"),
        Ok(repo) => {
            let m = match &s.input.managed_repo {
                Some(x) => managed_repo_from_override(Some(x.as_str())),
                None => managed_repo_from_override(None),
            };
            if !is_managed_repo(&repo, &m) {
                let e = cat3("repo ", s.input.repo.as_str(), " is not deploy-managed");
                deploy_failure_from_error(s, "deploy_repo_not_managed", e, "not_attempted")
            } else {
                step_to(s, DeployPhase::Checkout, DeployAction::Checkout)
            }
        },
    }
}

/// After the commit was checked out.
fn on_checkout(s: DeployState<String>, reply: DeployReply<String>) -> (r: DeployStep)
    requires
        deploy_fits(DeployPhase::Checkout, reply),
        s.phase == DeployPhase::Checkout,
        deploy_consistent(deploy_view(s)),
    ensures
        deploy_step_view(r) == after_checkout(deploy_view(s), deploy_reply_view(reply)),
        deploy_consistent(deploy_view(r.0)),
{
    match reply {
        DeployReply::Path(path) => {
            let mut s = s;
            s.checkout = Some(path);
            match RepoRef::parse(s.input.repo.as_str()) {
                Ok(repo) => match deploy_release_root(
                    s.input.db_path.as_str(),
                    &repo,
                    s.input.branch.as_str(),
                ) {
                    Ok(dir) => {
                        s.release_dir = join_path(dir.as_str(), s.input.sha.as_str());
                        step_to(s, DeployPhase::ReleaseRoot, DeployAction::MakeReleaseRoot(dir))
                    },
                    Err(e) => deploy_failure_from_error(
                        s,
                        "deploy_release_dir_failed",
                        e,
                        "not_attempted",
                    ),
                },
                Err(e) => fail_early(s, e),
            }
        },
        DeployReply::Failed { log, error } => deploy_failure_from_error(
            log_more(s, log.as_str()),
            "deploy_checkout_failed",
            error,
            "not_attempted",
        ),
        _ => fail_early(s, String::new()),
    }
}

/// Where the two programs are installed.
pub fn deploy_binary_paths(
    orchd_bin: &Option<String>,
    forgejoctl_bin: &Option<String>,
    home: &Option<String>,
) -> (r: Result<(String, String), String>)
    ensures
        match expanded(setting_or(opt_view(*orchd_bin), DEFAULT_ORCHD_BIN@), opt_view(*home)) {
            Err(m) => r matches Err(e) && e@ == m,
            Ok(a) => match expanded(
                setting_or(opt_view(*forgejoctl_bin), DEFAULT_FORGEJOCTL_BIN@),
                opt_view(*home),
            ) {
                Err(m) => r matches Err(e) && e@ == m,
                Ok(b) => r matches Ok(x) && x.0@ == a && x.1@ == b,
            },
        },
{
    let a = match orchd_bin {
        Some(x) => expand_tilde_path(x.as_str(), home),
        None => expand_tilde_path(DEFAULT_ORCHD_BIN, home),
    };
    let orchd = match a {
        Ok(x) => x,
        Err(e) => {
            return Err(e);
        },
    };
    let b = match forgejoctl_bin {
        Some(x) => expand_tilde_path(x.as_str(), home),
        None => expand_tilde_path(DEFAULT_FORGEJOCTL_BIN, home),
    };
    match b {
        Ok(x) => Ok((orchd, x)),
        Err(e) => Err(e),
    }
}

/// The text, or an empty one.
fn text_or_empty(t: &Option<String>) -> (r: String)
    ensures
        t matches Some(x) ==> r@ == x@,
{
    match t {
        Some(x) => x.clone(),
        None => String::new(),
    }
}

/// Takes a deploy on from an answer.
pub fn execute_deploy_job(s: DeployState<String>, reply: DeployReply<String>) -> (r: DeployStep)
    requires
        deploy_fits(s.phase, reply),
        deploy_consistent(deploy_view(s)),
    ensures
        deploy_step_view(r) == deploy_next(deploy_view(s), deploy_reply_view(reply)),
        deploy_consistent(deploy_view(r.0)),
{
    match s.phase {
        DeployPhase::RunDir => on_run_dir(s, reply),
        DeployPhase::Checkout => on_checkout(s, reply),
        DeployPhase::ReleaseRoot => match reply {
            DeployReply::Failed { error, .. } => deploy_failure_from_error(
                s,
                "deploy_release_dir_failed",
                error,
                "not_attempted",
            ),
            _ => {
                let checkout = text_or_empty(&s.checkout);
                let release_dir = s.release_dir.clone();
                step_to(s, DeployPhase::Build, DeployAction::Build { checkout, release_dir })
            },
        },
        DeployPhase::Build => match reply {
            DeployReply::Logged(log) => step_to(
                log_more(s, log.as_str()),
                DeployPhase::Guard,
                DeployAction::Guard,
            ),
            DeployReply::Failed { log, error } => deploy_failure_from_error(
                log_more(s, log.as_str()),
                "deploy_build_failed",
                error,
                "not_attempted",
            ),
            _ => fail_early(s, String::new()),
        },
        DeployPhase::Guard => match reply {
            DeployReply::Logged(log) => {
                let mut n = log_more(s, log.as_str());
                match deploy_binary_paths(
                    &n.input.orchd_bin,
                    &n.input.forgejoctl_bin,
                    &n.input.home,
                ) {
                    Ok((a, b)) => {
                        n.orchd_dest = a;
                        n.forgejoctl_dest = b;
                        step_to(n, DeployPhase::ReadState, DeployAction::ReadState)
                    },
                    Err(e) => deploy_failure_from_error(
                        n,
                        "deploy_paths_failed",
                        e,
                        "not_attempted",
                    ),
                }
            },
            DeployReply::Failed { log, error } => deploy_failure_from_error(
                log_more(s, log.as_str()),
                "deploy_schema_downgrade_blocked",
                error,
                "not_attempted",
            ),
            _ => fail_early(s, String::new()),
        },
        DeployPhase::ReadState => match reply {
            DeployReply::State { active, previous } => {
                let mut n = s;
                n.previous_active = active;
                if let Some(p) = previous {
                    let line = cat3("previous_previous_sha=", p.as_str(), "\n");
                    n.log.append(line.as_str());
                }
                let count = i64_text(n.input.attempt_count);
                let attempt = cat2("attempt-", count.as_str());
                let dir = join_path(n.release_dir.as_str(), "rollback");
                let rollback_dir = join_path(dir.as_str(), attempt.as_str());
                let orchd_dest = n.orchd_dest.clone();
                let forgejoctl_dest = n.forgejoctl_dest.clone();
                step_to(
                    n,
                    DeployPhase::Activate,
                    DeployAction::Activate { orchd_dest, forgejoctl_dest, rollback_dir },
                )
            },
            DeployReply::Failed { error, .. } => deploy_failure_from_error(
                s,
                "deploy_release_state_read_failed",
                error,
                "not_attempted",
            ),
            _ => fail_early(s, String::new()),
        },
        DeployPhase::Activate => match reply {
            DeployReply::Logged(log) => {
                let n = log_more(s, log.as_str());
                let active = n.input.sha.clone();
                let previous = clone_opt(&n.previous_active);
                step_to(
                    n,
                    DeployPhase::WriteState,
                    DeployAction::WriteState { active, previous },
                )
            },
            DeployReply::NotInService { log, error, status } => deploy_failure_from_error(
                log_more(s, log.as_str()),
                "deploy_activate_failed",
                error,
                status.as_str(),
            ),
            _ => fail_early(s, String::new()),
        },
        DeployPhase::WriteState => match reply {
            DeployReply::Failed { error, .. } => deploy_failure_from_error(
                s,
                "deploy_release_state_write_failed",
                error,
                "not_needed",
            ),
            _ => {
                let log = s.log.clone();
                step_to(s, DeployPhase::WriteLog, DeployAction::WriteLog(log))
            },
        },
        DeployPhase::WriteLog => match reply {
            DeployReply::Failed { error, .. } => deploy_failure_from_error(
                s,
                "deploy_log_write_failed",
                error,
                "not_needed",
            ),
            _ => {
                let checkout = text_or_empty(&s.checkout);
                let log_path = text_or_empty(&s.log_path);
                step_to(s, DeployPhase::Over, DeployAction::Succeed { checkout, log_path })
            },
        },
        DeployPhase::Over => fail_early(s, String::new()),
    }
}

/// A release is taken into service only in its turn: after it was built and then held to the schema of
/// the database, and never for a repository that is not the managed one.
pub proof fn law_releases_are_guarded(s: DeploySpec, reply: DeployReply<Seq<char>>)
    requires
        deploy_consistent(s),
        deploy_fits(s.phase, reply),
    ensures
        ({
            let n = deploy_next(s, reply);
            &&& n.1 is Guard ==> s.phase == DeployPhase::Build && reply is Logged
            &&& n.1 is ReadState ==> s.phase == DeployPhase::Guard && reply is Logged
            &&& n.1 is Activate ==> s.phase == DeployPhase::ReadState && reply is State
            &&& n.1 is Activate ==> repo_parts(s.input.repo) == Some(managed(s.input.managed_repo))
            &&& n.1 is Succeed ==> s.phase == DeployPhase::WriteLog
        }),
{
}

/// How far a deploy is from its end.
pub open spec fn deploy_distance(phase: DeployPhase) -> nat {
    match phase {
        DeployPhase::RunDir => 9,
        DeployPhase::Checkout => 8,
        DeployPhase::ReleaseRoot => 7,
        DeployPhase::Build => 6,
        DeployPhase::Guard => 5,
        DeployPhase::ReadState => 4,
        DeployPhase::Activate => 3,
        DeployPhase::WriteState => 2,
        DeployPhase::WriteLog => 1,
        DeployPhase::Over => 0,
    }
}

/// Whatever the answers, a deploy ends, in a success or in a failure that names its reason; what was in
/// its log stays there.
pub proof fn law_deploys_end(s: DeploySpec, reply: DeployReply<Seq<char>>)
    requires
        deploy_consistent(s),
        deploy_fits(s.phase, reply),
    ensures
        ({
            let n = deploy_next(s, reply);
            &&& deploy_distance(n.0.phase) < deploy_distance(s.phase)
            &&& n.0.phase == DeployPhase::Over <==> n.1 is Succeed || n.1 is Fail
            &&& s.log.is_prefix_of(n.0.log)
        }),
{
}

/// The text of the issue on a failed deploy, where its template cannot be had.
pub open spec fn plain_failure(
    job: DeployJob,
    checkout: Seq<char>,
    log: Seq<char>,
    rollback: Seq<char>,
    error: Seq<char>,
    template_error: Seq<char>,
) -> Seq<char> {
    "@codex-orch impl\n\nDeploy failed for `"@ + job.repo_full_name@ + "` at `"@ + job.target_sha@
        + "`.\n\nInstruction: if the fix is clear, implement it immediately.\n\nerror: "@ + error
        + "\nrollback: "@ + rollback + "\ncheckout: "@ + checkout + "\nlog: "@ + log
        + "\n(template error: "@ + template_error + ")\n"@
}

/// A text, or `<none>`.
pub open spec fn or_none(t: Option<Seq<char>>) -> Seq<char> {
    match t {
        Some(x) => x,
        None => "<none>"@,
    }
}

/// A text, or `<none>`.
fn text_or_none(t: &Option<String>) -> (r: String)
    ensures
        r@ == or_none(opt_view(*t)),
{
    match t {
        Some(x) => x.clone(),
        None => "<none>".to_owned(),
    }
}

/// The values of the template for the issue on a failed deploy.
pub open spec fn failure_values(
    job: DeployJob,
    checkout: Seq<char>,
    log: Seq<char>,
    rollback: Seq<char>,
    error: Seq<char>,
) -> Seq<(Seq<char>, Seq<char>)> {
    seq![
        ("repo_full_name"@, job.repo_full_name@),
        ("target_branch"@, job.target_branch@),
        ("target_sha"@, job.target_sha@),
        ("source_delivery_id"@, or_none(opt_view(job.source_delivery_id))),
        ("source_actor_login"@, or_none(opt_view(job.source_actor_login))),
        ("checkout_path"@, checkout),
        ("log_path"@, log),
        ("rollback_status"@, rollback),
        ("error_text"@, error),
    ]
}

/// The text of the issue on a failed deploy.
pub open spec fn failure_issue(
    job: DeployJob,
    checkout_path: Option<Seq<char>>,
    log_path: Option<Seq<char>>,
    rollback: Seq<char>,
    error: Seq<char>,
    template: Result<Seq<char>, Seq<char>>,
) -> Seq<char> {
    let c = or_none(checkout_path);
    let l = or_none(log_path);
    match template {
        Ok(t) => match rendered(t, failure_values(job, c, l, rollback, error)) {
            Ok(body) => body,
            Err(m) => plain_failure(
                job,
                c,
                l,
                rollback,
                error,
                "prompt template failure: "@ + m,
            ),
        },
        Err(e) => plain_failure(job, c, l, rollback, error, e),
    }
}

/// The text of the issue on a failed deploy, where its template cannot be had.
fn plain_issue(
    job: &DeployJob,
    checkout: &str,
    log: &str,
    rollback: &str,
    error: &str,
    template_error: &str,
) -> (r: String)
    ensures
        r@ == plain_failure(*job, checkout@, log@, rollback@, error@, template_error@),
{
    let mut m = cat7(
        "@codex-orch impl\n\nDeploy failed for `",
        job.repo_full_name.as_str(),
        "` at `",
        job.target_sha.as_str(),
        "`.\n\nInstruction: if the fix is clear, implement it immediately.\n\nerror: ",
        error,
        "\nrollback: ",
    );
    m.append(rollback);
    m.append("\ncheckout: ");
    m.append(checkout);
    m.append("\nlog: ");
    m.append(log);
    m.append("\n(template error: ");
    m.append(template_error);
    m.append(")\n");
    m
}

/// The text of the issue on a failed deploy, from its template as far as that was read and renders.
pub fn render_deploy_failure_issue(
    job: &DeployJob,
    checkout_path: &Option<String>,
    log_path: &Option<String>,
    rollback_status: &str,
    error_text: &str,
    template: &Result<String, String>,
) -> (r: String)
    ensures
        r@ == failure_issue(
            *job,
            opt_view(*checkout_path),
            opt_view(*log_path),
            rollback_status@,
            error_text@,
            text_result(*template),
        ),
{
    let checkout = text_or_none(checkout_path);
    let log = text_or_none(log_path);
    match template {
        Ok(t) => {
            let delivery = text_or_none(&job.source_delivery_id);
            let actor = text_or_none(&job.source_actor_login);
            let values = [
                ("repo_full_name", job.repo_full_name.as_str()),
                ("target_branch", job.target_branch.as_str()),
                ("target_sha", job.target_sha.as_str()),
                ("source_delivery_id", delivery.as_str()),
                ("source_actor_login", actor.as_str()),
                ("checkout_path", checkout.as_str()),
                ("log_path", log.as_str()),
                ("rollback_status", rollback_status),
                ("error_text", error_text),
            ];
            proof {
                assert(pairs(values@) =~= failure_values(
                    *job,
                    checkout@,
                    log@,
                    rollback_status@,
                    error_text@,
                ));
            }
            match render_prompt(t.as_str(), &values) {
                Ok(body) => body,
                Err(e) => {
                    let m = e.message();
                    plain_issue(
                        job,
                        checkout.as_str(),
                        log.as_str(),
                        rollback_status,
                        error_text,
                        m.as_str(),
                    )
                },
            }
        },
        Err(e) => plain_issue(
            job,
            checkout.as_str(),
            log.as_str(),
            rollback_status,
            error_text,
            e.as_str(),
        ),
    }
}

/// The title of the issue on a failed deploy; none where the job names no repository.
pub fn deploy_failure_title(job: &DeployJob) -> (r: Option<String>)
    requires
        can_shorten(job.target_sha@),
    ensures
        opt_view(r) == (match repo_parts(job.repo_full_name@) {
            Some(p) => Some(
                "deploy failure: "@ + repo_text(p.0, p.1) + " "@ + job.target_branch@ + "@"@
                    + shortened(job.target_sha@),
            ),
            None => None,
        }),
{
    match RepoRef::parse(job.repo_full_name.as_str()) {
        Ok(repo) => {
            let full = repo.text();
            let short = short_sha(job.target_sha.as_str());
            Some(
                cat6(
                    "deploy failure: ",
                    full.as_str(),
                    " ",
                    job.target_branch.as_str(),
                    "@",
                    short.as_str(),
                ),
            )
        },
        Err(_) => None,
    }
}

/// A deploy goes its way step by step: checked out, built, held to the schema, then taken into service
/// under what is set, and what is then in service is recorded with what was before; it is done once its
/// log is written.
pub proof fn law_deploys_go_their_way(
    s: DeploySpec,
    text: Seq<char>,
    active: Option<Seq<char>>,
    previous: Option<Seq<char>>,
)
    requires
        deploy_consistent(s),
    ensures
        s.phase == DeployPhase::RunDir ==> {
            let n = deploy_next(s, DeployReply::Done);
            &&& repo_parts(s.input.repo) == Some(managed(s.input.managed_repo)) ==> n.1 is Checkout
            &&& repo_parts(s.input.repo) != Some(managed(s.input.managed_repo)) ==> (n.1 matches
                DeployAction::Fail { failure, .. } && failure.reason_code == (if repo_parts(
                s.input.repo,
            ) is None {
                "deploy_invalid_repo"@
            } else {
                "deploy_repo_not_managed"@
            }))
        },
        s.phase == DeployPhase::ReleaseRoot ==> deploy_next(s, DeployReply::Done).1 == (DeployAction::<
            Seq<char>,
        >::Build { checkout: s.checkout->0, release_dir: s.release_dir }),
        s.phase == DeployPhase::Build ==> deploy_next(s, DeployReply::Logged(text)).1 is Guard,
        s.phase == DeployPhase::Guard ==> deploy_next(s, DeployReply::Logged(text)).1 is ReadState
            || deploy_next(s, DeployReply::Logged(text)).1 is Fail,
        s.phase == DeployPhase::ReadState ==> {
            let n = deploy_next(s, DeployReply::State { active, previous });
            &&& n.1 matches DeployAction::Activate { orchd_dest, forgejoctl_dest, .. } && orchd_dest
                == s.orchd_dest && forgejoctl_dest == s.forgejoctl_dest
            &&& n.0.previous_active == active
            &&& deploy_next(n.0, DeployReply::Logged(text)).1 == (DeployAction::<
                Seq<char>,
            >::WriteState { active: s.input.sha, previous: active })
        },
        s.phase == DeployPhase::WriteState ==> deploy_next(s, DeployReply::Done).1
            == DeployAction::<Seq<char>>::WriteLog(s.log),
        s.phase == DeployPhase::WriteLog ==> deploy_next(s, DeployReply::Done).1 == (DeployAction::<
            Seq<char>,
        >::Succeed { checkout: s.checkout->0, log_path: s.log_path->0 }),
        forall|r: DeployReply<Seq<char>>|
            deploy_fits(s.phase, r) && (#[trigger] deploy_next(s, r)).1 is Succeed ==> s.phase
                == DeployPhase::WriteLog && r is Done,
{
}

/// Each failure of a deploy has its reason, and says how the service stands: untouched before the release
/// is taken into service, as it was found where that failed, and in no need of a rollback after it. The
/// log is kept and tells the reason and the error.
pub proof fn law_failed_deploys_tell_why(
    s: DeploySpec,
    log: Seq<char>,
    error: Seq<char>,
    status: Seq<char>,
)
    requires
        deploy_consistent(s),
    ensures
        deploy_fits(s.phase, DeployReply::<Seq<char>>::Failed { log, error }) ==> (deploy_next(
            s,
            DeployReply::Failed { log, error },
        ).1 matches DeployAction::Fail { failure, log: told } && failure.error_text == error
            && failure.reason_code == (match s.phase {
            DeployPhase::RunDir => "deploy_log_path_failed"@,
            DeployPhase::Checkout => "deploy_checkout_failed"@,
            DeployPhase::ReleaseRoot => "deploy_release_dir_failed"@,
            DeployPhase::Build => "deploy_build_failed"@,
            DeployPhase::Guard => "deploy_schema_downgrade_blocked"@,
            DeployPhase::ReadState => "deploy_release_state_read_failed"@,
            DeployPhase::WriteState => "deploy_release_state_write_failed"@,
            _ => "deploy_log_write_failed"@,
        }) && failure.rollback_status == (if s.phase == DeployPhase::WriteState || s.phase
            == DeployPhase::WriteLog {
            "not_needed"@
        } else {
            "not_attempted"@
        }) && s.log.is_prefix_of(told) && (s.phase != DeployPhase::RunDir ==> failure.log_path
            == s.log_path && failure.checkout_path == s.checkout)),
        s.phase == DeployPhase::Activate ==> (deploy_next(
            s,
            DeployReply::NotInService { log, error, status },
        ).1 matches DeployAction::Fail { failure, log: told } && failure.reason_code
            == "deploy_activate_failed"@ && failure.error_text == error && failure.rollback_status
            == status && (s.log + log).is_prefix_of(told)),
{
    let tail = |r: Seq<char>|
        ("failure_reason="@ + r + "\n"@) + ("failure_error="@ + error + "\n"@);
    assert forall|a: Seq<char>, b: Seq<char>| a.is_prefix_of(#[trigger] (a + b)) by {
        assert((a + b).take(a.len() as int) =~= a);
    }
    assert forall|a: Seq<char>, b: Seq<char>, c: Seq<char>| a.is_prefix_of(#[trigger] (a + b + c)) by {
        assert((a + b + c).take(a.len() as int) =~= a);
    }
    assert forall|a: Seq<char>, b: Seq<char>, c: Seq<char>, d: Seq<char>| a.is_prefix_of(
        #[trigger] (a + b + c + d),
    ) by {
        assert((a + b + c + d).take(a.len() as int) =~= a);
    }
    assert(s.log.is_prefix_of(s.log));
}

/// A commit is checked out from the forge: a checkout that is there is pointed to it, any other path is
/// refused, and a missing one is cloned; the branch is fetched, and the commit by itself where the branch
/// did not bring it; then it is checked out, and only then the checkout is ready.
pub proof fn law_commits_are_fetched_and_checked_out(
    s: Fetching<Seq<char>>,
    url: Seq<char>,
    is_git_repo: bool,
    is_there: bool,
    e: Seq<char>,
)
    ensures
        ({
            let b = fetch_begun(s, url, is_git_repo, is_there);
            &&& is_git_repo ==> b.1 == FetchAction::<Seq<char>, Seq<Seq<char>>>::Git(
                seq!["remote"@, "set-url"@, "origin"@, url],
            )
            &&& !is_git_repo && is_there ==> b.1 is GiveUp
            &&& !is_git_repo && !is_there ==> b.1 == FetchAction::<
                Seq<char>,
                Seq<Seq<char>>,
            >::MakeParentAndGit(seq!["clone"@, "--origin"@, "origin"@, url, s.checkout])
        }),
        s.phase == FetchPhase::SetUrl || s.phase == FetchPhase::Clone ==> fetch_next(
            s,
            FetchReply::Done,
        ).1 == FetchAction::<Seq<char>, Seq<Seq<char>>>::GitWithToken(
            seq!["fetch"@, "origin"@, s.branch],
        ),
        s.phase == FetchPhase::Fetch ==> fetch_next(s, FetchReply::Done).1 == FetchAction::<
            Seq<char>,
            Seq<Seq<char>>,
        >::Git(seq!["cat-file"@, "-e"@, s.sha + "^{commit}"@]),
        s.phase == FetchPhase::Probe ==> fetch_next(s, FetchReply::Failed(e)).1 == FetchAction::<
            Seq<char>,
            Seq<Seq<char>>,
        >::GitWithToken(seq!["fetch"@, "origin"@, s.sha]),
        s.phase == FetchPhase::Probe || s.phase == FetchPhase::FetchCommit ==> fetch_next(
            s,
            FetchReply::Done,
        ).1 == FetchAction::<Seq<char>, Seq<Seq<char>>>::Git(
            seq!["checkout"@, "-f"@, "--detach"@, s.sha],
        ),
        s.phase == FetchPhase::Checkout ==> fetch_next(s, FetchReply::Done).1 == FetchAction::<
            Seq<char>,
            Seq<Seq<char>>,
        >::Ready(s.checkout),
        s.phase == FetchPhase::Clone || s.phase == FetchPhase::Fetch || s.phase
            == FetchPhase::Checkout ==> fetch_next(s, FetchReply::Failed(e)).1 is GiveUp,
        forall|r: FetchReply<Seq<char>>|
            (#[trigger] fetch_next(s, r)).1 is Ready ==> s.phase == FetchPhase::Checkout,
{
}

/// A deploy begins with the directory of the logs next to the store, in which its log is named after it.
pub proof fn law_deploys_begin_with_their_log(input: DeployInput<Seq<char>>, root: Seq<char>)
    ensures
        crate::repo::beside(input.db_path, "deploy-runs"@) == Some(root) ==> {
            let b = deploy_begun(input);
            &&& b.1 == DeployAction::<Seq<char>>::MakeRunDir(root)
            &&& b.0.phase == DeployPhase::RunDir
            &&& b.0.log_path == Some(
                joined(root, "deploy-"@ + decimal_int(input.job_id as int) + ".log"@),
            )
            &&& b.0.input == input
            &&& b.0.log.len() == 0
            &&& b.0.checkout is None
            &&& b.0.previous_active is None
        },
        crate::repo::beside(input.db_path, "deploy-runs"@) is None ==> deploy_begun(input).1 is Fail,
{
}

/// The issue on a failed deploy is its template with what is known of the deploy.
pub proof fn law_failure_issues_tell_what_is_known(
    job: DeployJob,
    checkout: Seq<char>,
    log: Seq<char>,
    rollback: Seq<char>,
    error: Seq<char>,
    template: Seq<char>,
    body: Seq<char>,
)
    requires
        job.source_delivery_id is Some,
        job.source_actor_login is None,
        rendered(
            template,
            seq![
                ("repo_full_name"@, job.repo_full_name@),
                ("target_branch"@, job.target_branch@),
                ("target_sha"@, job.target_sha@),
                ("source_delivery_id"@, job.source_delivery_id->0@),
                ("source_actor_login"@, "<none>"@),
                ("checkout_path"@, checkout),
                ("log_path"@, log),
                ("rollback_status"@, rollback),
                ("error_text"@, error),
            ],
        ) == Ok::<Seq<char>, Seq<char>>(body),
    ensures
        failure_issue(job, Some(checkout), Some(log), rollback, error, Ok(template)) == body,
        checkout == "<none>"@ && log == "<none>"@ ==> failure_issue(
            job,
            None,
            None,
            rollback,
            error,
            Ok(template),
        ) == body,
{
}

/// Without a template the issue on a failed deploy tells the same in plain words.
pub proof fn law_failures_are_told_without_a_template(
    job: DeployJob,
    checkout: Seq<char>,
    log: Seq<char>,
    rollback: Seq<char>,
    error: Seq<char>,
    e: Seq<char>,
)
    ensures
        failure_issue(job, Some(checkout), Some(log), rollback, error, Err(e))
            == "@codex-orch impl\n\nDeploy failed for `"@ + job.repo_full_name@ + "` at `"@
            + job.target_sha@
            + "`.\n\nInstruction: if the fix is clear, implement it immediately.\n\nerror: "@ + error
            + "\nrollback: "@ + rollback + "\ncheckout: "@ + checkout + "\nlog: "@ + log
            + "\n(template error: "@ + e + ")\n"@,
{
}

/// What is asked for is what is waited for, and nothing after the end; what the deploy works on stays, and
/// its log only grows.
pub proof fn law_deploys_wait_for_what_they_ask(s: DeploySpec, reply: DeployReply<Seq<char>>)
    requires
        deploy_fits(s.phase, reply),
        s.phase == DeployPhase::Checkout ==> repo_parts(s.input.repo) is Some,
    ensures
        ({
            let n = deploy_next(s, reply);
            let p = n.0.phase;
            &&& n.1 is Checkout <==> p == DeployPhase::Checkout
            &&& n.1 is MakeReleaseRoot <==> p == DeployPhase::ReleaseRoot
            &&& n.1 is Build <==> p == DeployPhase::Build
            &&& n.1 is Guard <==> p == DeployPhase::Guard
            &&& n.1 is ReadState <==> p == DeployPhase::ReadState
            &&& n.1 is Activate <==> p == DeployPhase::Activate
            &&& n.1 is WriteState <==> p == DeployPhase::WriteState
            &&& n.1 is WriteLog <==> p == DeployPhase::WriteLog
            &&& n.1 is Succeed || n.1 is Fail <==> p == DeployPhase::Over
            &&& n.0.input == s.input
            &&& n.0.log_path == s.log_path
            &&& s.phase != DeployPhase::RunDir ==> s.log.is_prefix_of(n.0.log)
        }),
{
    let n = deploy_next(s, reply);
    if s.phase != DeployPhase::RunDir {
        assert(s.log =~= n.0.log.take(s.log.len() as int));
    }
}

/// The log of a deploy begins with who deploys what.
pub proof fn law_logs_begin_with_the_deploy(s: DeploySpec)
    requires
        s.phase == DeployPhase::RunDir,
    ensures
        ({
            let head = "worker_identity="@ + s.input.worker_identity + "\nrepo="@ + s.input.repo
                + "\nbranch="@ + s.input.branch + "\ntarget_sha="@ + s.input.sha + "\ndeploy_job_id="@
                + decimal_int(s.input.job_id as int) + "\n"@;
            head.is_prefix_of(deploy_next(s, DeployReply::Done).0.log)
        }),
{
    let head = log_head(s.input);
    let n = deploy_next(s, DeployReply::Done);
    assert(head =~= n.0.log.take(head.len() as int));
}

/// The checking out waits for what it asks, and keeps what it is to check out.
pub proof fn law_fetching_keeps_its_commit(s: Fetching<Seq<char>>, reply: FetchReply<Seq<char>>)
    requires
        s.phase != FetchPhase::Over,
    ensures
        ({
            let n = fetch_next(s, reply);
            &&& n.0.checkout == s.checkout && n.0.branch == s.branch && n.0.sha == s.sha
            &&& n.1 is Ready || n.1 is GiveUp <==> n.0.phase == FetchPhase::Over
            &&& n.1 is GitWithToken <==> n.0.phase == FetchPhase::Fetch || n.0.phase
                == FetchPhase::FetchCommit
            &&& n.1 is Git <==> n.0.phase == FetchPhase::Probe || n.0.phase == FetchPhase::Checkout
            &&& n.0.phase == FetchPhase::FetchCommit ==> s.phase == FetchPhase::Probe
            &&& n.0.phase == FetchPhase::Probe ==> s.phase == FetchPhase::Fetch
        }),
{
}

/// What failed is written to the end of the log.
pub proof fn law_logs_end_with_the_failure(
    s: DeploySpec,
    reason: Seq<char>,
    error: Seq<char>,
    rollback: Seq<char>,
)
    ensures
        deploy_failed(s, reason, error, rollback).0.log == s.log + ("failure_reason="@ + reason + "\n"@)
            + ("failure_error="@ + error + "\n"@),
        deploy_failed(s, reason, error, rollback).1 matches DeployAction::Fail { failure, log }
            && failure.reason_code == reason && failure.error_text == error && failure.rollback_status
            == rollback && failure.checkout_path == s.checkout && failure.log_path == s.log_path && log
            == deploy_failed(s, reason, error, rollback).0.log,
{
}

} // verus!
