//! One pass of the deploy worker: a job is claimed, carried out and completed; and where a build leaves
//! its programs.

use crate::deploy_job::{failure_view, DeployFailure};
use crate::paths::{join_path, joined};
use crate::text::cat2;
use vstd::prelude::*;
use vstd::string::*;

verus! {

/// Which answer a pass waits for.
#[derive(Clone, Copy, PartialEq, Eq, Structural, Debug)]
pub enum WorkerPhase {
    Claim,
    Mark,
    Execute,
    OpenIssue,
    Complete,
    Over,
}

/// A pass of the worker: the job that it claimed, and how that failed.
#[verifier::ext_equal]
pub struct Pass<S> {
    pub phase: WorkerPhase,
    pub job_id: i64,
    pub failure: Option<DeployFailure<S>>,
}

/// What is done next.
#[verifier::ext_equal]
pub enum WorkerAction<S> {
    /// Claim the next job.
    Claim,
    /// Record who works on the job.
    MarkWorker(i64),
    /// Carry the job out.
    Execute(i64),
    /// Open an issue on the failure.
    OpenIssue { job_id: i64, failure: DeployFailure<S> },
    /// Record the job as done.
    CompleteSuccess { job_id: i64, checkout: S, log_path: S },
    /// Record the job as failed, with the issue where one was opened.
    CompleteFailure { job_id: i64, failure: DeployFailure<S>, incident: Option<u64> },
    /// The pass is over, with the error where there is one.
    End(Option<S>),
}

/// What came of it.
#[verifier::ext_equal]
pub enum WorkerReply<S> {
    Nothing,
    Job(i64),
    Done,
    Deployed { checkout: S, log_path: S },
    NotDeployed(DeployFailure<S>),
    Issue(Option<u64>),
    Failed(S),
}

/// A step in contracts.
pub type WorkerStepSpec = (Pass<Seq<char>>, WorkerAction<Seq<char>>);

/// A step at run time.
pub type WorkerStep = (Pass<String>, WorkerAction<String>);

/// The view of a pass.
pub open spec fn pass_view(s: Pass<String>) -> Pass<Seq<char>> {
    Pass {
        phase: s.phase,
        job_id: s.job_id,
        failure: match s.failure {
            Some(f) => Some(failure_view(f)),
            None => None,
        },
    }
}

/// The view of an action.
pub open spec fn action_view(a: WorkerAction<String>) -> WorkerAction<Seq<char>> {
    match a {
        WorkerAction::Claim => WorkerAction::Claim,
        WorkerAction::MarkWorker(id) => WorkerAction::MarkWorker(id),
        WorkerAction::Execute(id) => WorkerAction::Execute(id),
        WorkerAction::OpenIssue { job_id, failure } => WorkerAction::OpenIssue {
            job_id,
            failure: failure_view(failure),
        },
        WorkerAction::CompleteSuccess { job_id, checkout, log_path } => WorkerAction::CompleteSuccess {
            job_id,
            checkout: checkout@,
            log_path: log_path@,
        },
        WorkerAction::CompleteFailure { job_id, failure, incident } => WorkerAction::CompleteFailure {
            job_id,
            failure: failure_view(failure),
            incident,
        },
        WorkerAction::End(e) => WorkerAction::End(
            match e {
                Some(t) => Some(t@),
                None => None,
            },
        ),
    }
}

/// The view of a step.
pub open spec fn step_view(r: WorkerStep) -> WorkerStepSpec {
    (pass_view(r.0), action_view(r.1))
}

/// The view of an answer.
pub open spec fn reply_view(r: WorkerReply<String>) -> WorkerReply<Seq<char>> {
    match r {
        WorkerReply::Nothing => WorkerReply::Nothing,
        WorkerReply::Job(id) => WorkerReply::Job(id),
        WorkerReply::Done => WorkerReply::Done,
        WorkerReply::Deployed { checkout, log_path } => WorkerReply::Deployed {
            checkout: checkout@,
            log_path: log_path@,
        },
        WorkerReply::NotDeployed(f) => WorkerReply::NotDeployed(failure_view(f)),
        WorkerReply::Issue(n) => WorkerReply::Issue(n),
        WorkerReply::Failed(t) => WorkerReply::Failed(t@),
    }
}

/// The answer is one that the phase waits for.
pub open spec fn fits<S>(phase: WorkerPhase, reply: WorkerReply<S>) -> bool {
    match phase {
        WorkerPhase::Claim => reply is Nothing || reply is Job || reply is Failed,
        WorkerPhase::Mark => reply is Done || reply is Failed,
        WorkerPhase::Execute => reply is Deployed || reply is NotDeployed,
        WorkerPhase::OpenIssue => reply is Issue || reply is Failed,
        WorkerPhase::Complete => reply is Done || reply is Failed,
        WorkerPhase::Over => false,
    }
}

/// While an issue is opened there is a failure that it is about.
pub open spec fn consistent<S>(s: Pass<S>) -> bool {
    s.phase == WorkerPhase::OpenIssue ==> s.failure is Some
}

/// The pass ends.
pub open spec fn ended(s: Pass<Seq<char>>, error: Option<Seq<char>>) -> WorkerStepSpec {
    (Pass { phase: WorkerPhase::Over, ..s }, WorkerAction::End(error))
}

/// What follows an answer.
pub open spec fn next(s: Pass<Seq<char>>, reply: WorkerReply<Seq<char>>) -> WorkerStepSpec {
    match (s.phase, reply) {
        (WorkerPhase::Claim, WorkerReply::Job(id)) => (
            Pass { phase: WorkerPhase::Mark, job_id: id, failure: None },
            WorkerAction::MarkWorker(id),
        ),
        (WorkerPhase::Claim, WorkerReply::Failed(e)) => ended(s, Some(e)),
        (WorkerPhase::Claim, _) => ended(s, None),
        (WorkerPhase::Mark, _) => (
            Pass { phase: WorkerPhase::Execute, ..s },
            WorkerAction::Execute(s.job_id),
        ),
        (WorkerPhase::Execute, WorkerReply::Deployed { checkout, log_path }) => (
            Pass { phase: WorkerPhase::Complete, ..s },
            WorkerAction::CompleteSuccess { job_id: s.job_id, checkout, log_path },
        ),
        (WorkerPhase::Execute, WorkerReply::NotDeployed(failure)) => (
            Pass { phase: WorkerPhase::OpenIssue, failure: Some(failure), ..s },
            WorkerAction::OpenIssue { job_id: s.job_id, failure },
        ),
        (WorkerPhase::OpenIssue, r) => (
            Pass { phase: WorkerPhase::Complete, failure: None, ..s },
            WorkerAction::CompleteFailure {
                job_id: s.job_id,
                failure: s.failure->0,
                incident: match r {
                    WorkerReply::Issue(n) => n,
                    _ => None,
                },
            },
        ),
        (WorkerPhase::Complete, WorkerReply::Failed(e)) => ended(s, Some(e)),
        _ => ended(s, None),
    }
}

/// A failure at run time, once more.
fn copied(f: &DeployFailure<String>) -> (r: DeployFailure<String>)
    ensures
        failure_view(r) == failure_view(*f),
{
    DeployFailure {
        reason_code: f.reason_code.clone(),
        error_text: f.error_text.clone(),
        checkout_path: crate::text::clone_opt(&f.checkout_path),
        log_path: crate::text::clone_opt(&f.log_path),
        rollback_status: f.rollback_status.clone(),
    }
}

/// Begins a pass.
pub fn begin_worker_pass() -> (r: WorkerStep)
    ensures
        r.0.phase == WorkerPhase::Claim,
        consistent(r.0),
        r.1 is Claim,
{
    (Pass { phase: WorkerPhase::Claim, job_id: 0, failure: None }, WorkerAction::Claim)
}

/// Takes an answer and tells what is done next.
pub fn run_worker_once(s: Pass<String>, reply: WorkerReply<String>) -> (r: WorkerStep)
    requires
        fits(s.phase, reply),
        consistent(s),
    ensures
        step_view(r) == next(pass_view(s), reply_view(reply)),
        consistent(r.0),
{
    let job_id: i64 = s.job_id;
    match s.phase {
        WorkerPhase::Claim => match reply {
            WorkerReply::Job(id) => (
                Pass { phase: WorkerPhase::Mark, job_id: id, failure: None },
                WorkerAction::MarkWorker(id),
            ),
            WorkerReply::Failed(e) => (
                Pass { phase: WorkerPhase::Over, job_id, failure: s.failure },
                WorkerAction::End(Some(e)),
            ),
            _ => (
                Pass { phase: WorkerPhase::Over, job_id, failure: s.failure },
                WorkerAction::End(None),
            ),
        },
        WorkerPhase::Mark => (
            Pass { phase: WorkerPhase::Execute, job_id, failure: s.failure },
            WorkerAction::Execute(job_id),
        ),
        WorkerPhase::Execute => match reply {
            WorkerReply::Deployed { checkout, log_path } => (
                Pass { phase: WorkerPhase::Complete, job_id, failure: s.failure },
                WorkerAction::CompleteSuccess { job_id, checkout, log_path },
            ),
            WorkerReply::NotDeployed(failure) => {
                let told = copied(&failure);
                (
                    Pass { phase: WorkerPhase::OpenIssue, job_id, failure: Some(failure) },
                    WorkerAction::OpenIssue { job_id, failure: told },
                )
            },
            _ => (
                Pass { phase: WorkerPhase::Over, job_id, failure: s.failure },
                WorkerAction::End(None),
            ),
        },
        WorkerPhase::OpenIssue => {
            let incident: Option<u64> = match reply {
                WorkerReply::Issue(n) => n,
                _ => None,
            };
            match s.failure {
                Some(failure) => (
                    Pass { phase: WorkerPhase::Complete, job_id, failure: None },
                    WorkerAction::CompleteFailure { job_id, failure, incident },
                ),
                None => (
                    Pass { phase: WorkerPhase::Over, job_id, failure: None },
                    WorkerAction::End(None),
                ),
            }
        },
        _ => {
            let error = match reply {
                WorkerReply::Failed(e) => Some(e),
                _ => None,
            };
            (
                Pass { phase: WorkerPhase::Over, job_id, failure: s.failure },
                WorkerAction::End(error),
            )
        },
    }
}

/// How far a pass is from its end.
pub open spec fn distance(phase: WorkerPhase) -> nat {
    match phase {
        WorkerPhase::Claim => 5,
        WorkerPhase::Mark => 4,
        WorkerPhase::Execute => 3,
        WorkerPhase::OpenIssue => 2,
        WorkerPhase::Complete => 1,
        WorkerPhase::Over => 0,
    }
}

/// A pass ends, and a job that was claimed is completed as it went: no answer lets a pass end between
/// the claim and the completion, and a failure is recorded whether or not an issue could be opened.
pub proof fn law_claimed_jobs_are_completed(s: Pass<Seq<char>>, reply: WorkerReply<Seq<char>>)
    requires
        fits(s.phase, reply),
        consistent(s),
    ensures
        ({
            let n = next(s, reply);
            &&& distance(n.0.phase) < distance(s.phase)
            &&& n.1 is End ==> s.phase == WorkerPhase::Complete || (s.phase == WorkerPhase::Claim
                && !(reply is Job))
            &&& s.phase != WorkerPhase::Claim ==> n.0.job_id == s.job_id
            &&& s.phase == WorkerPhase::Execute ==> (n.1 is CompleteSuccess <==> reply is Deployed)
            &&& s.phase == WorkerPhase::OpenIssue ==> (n.1 matches WorkerAction::CompleteFailure {
                job_id,
                failure,
                ..
            } && job_id == s.job_id && Some(failure) == s.failure)
        }),
{
}

/// Where a build leaves its programs, and where they are kept with the release.
#[verifier::ext_equal]
pub struct Release<S> {
    pub manifest: S,
    pub orchd_built: S,
    pub forgejoctl_built: S,
    pub bin_dir: S,
    pub orchd: S,
    pub forgejoctl: S,
}

/// The view of a release.
pub open spec fn release_view(r: Release<String>) -> Release<Seq<char>> {
    Release {
        manifest: r.manifest@,
        orchd_built: r.orchd_built@,
        forgejoctl_built: r.forgejoctl_built@,
        bin_dir: r.bin_dir@,
        orchd: r.orchd@,
        forgejoctl: r.forgejoctl@,
    }
}

/// The release that a checkout is built into.
pub open spec fn release_of(checkout: Seq<char>, release_dir: Seq<char>) -> Release<Seq<char>> {
    let built = joined(joined(checkout, "target"@), "release"@);
    let bin_dir = joined(release_dir, "bin"@);
    Release {
        manifest: joined(checkout, "Cargo.toml"@),
        orchd_built: joined(built, "orchd"@),
        forgejoctl_built: joined(built, "forgejo-agent"@),
        bin_dir,
        orchd: joined(bin_dir, "orchd"@),
        forgejoctl: joined(bin_dir, "forgejoctl"@),
    }
}

/// The release that a checkout is built into.
pub fn build_release(checkout: &str, release_dir: &str) -> (r: Release<String>)
    ensures
        release_view(r) == release_of(checkout@, release_dir@),
{
    let target = join_path(checkout, "target");
    let built = join_path(target.as_str(), "release");
    let bin_dir = join_path(release_dir, "bin");
    let orchd = join_path(bin_dir.as_str(), "orchd");
    let forgejoctl = join_path(bin_dir.as_str(), "forgejoctl");
    Release {
        manifest: join_path(checkout, "Cargo.toml"),
        orchd_built: join_path(built.as_str(), "orchd"),
        forgejoctl_built: join_path(built.as_str(), "forgejo-agent"),
        bin_dir,
        orchd,
        forgejoctl,
    }
}

/// Holds a build to having left both programs.
pub fn built_programs(release: &Release<String>, orchd_there: bool, forgejoctl_there: bool) -> (r:
    Result<(), String>)
    ensures
        match r {
            Ok(_) => orchd_there && forgejoctl_there,
            Err(e) => e@ == (if !orchd_there {
                "orchd binary missing after build: "@ + release.orchd_built@
            } else {
                "forgejoctl binary missing after build: "@ + release.forgejoctl_built@
            }) && !(orchd_there && forgejoctl_there),
        },
{
    if !orchd_there {
        return Err(cat2("orchd binary missing after build: ", release.orchd_built.as_str()));
    }
    if !forgejoctl_there {
        return Err(
            cat2("forgejoctl binary missing after build: ", release.forgejoctl_built.as_str()),
        );
    }
    Ok(())
}

/// A pass claims a job, marks who works on it, carries it out and records how that went: as done with where
/// it was checked out and logged, or as failed with the issue that was opened on it.
pub proof fn law_passes_go_their_way(
    s: Pass<Seq<char>>,
    id: i64,
    e: Seq<char>,
    checkout: Seq<char>,
    log_path: Seq<char>,
    failure: DeployFailure<Seq<char>>,
    incident: Option<u64>,
)
    requires
        consistent(s),
    ensures
        s.phase == WorkerPhase::Claim ==> {
            &&& next(s, WorkerReply::Job(id)).1 == WorkerAction::<Seq<char>>::MarkWorker(id)
            &&& next(s, WorkerReply::Job(id)).0.job_id == id
            &&& next(s, WorkerReply::Nothing).1 == WorkerAction::<Seq<char>>::End(None)
            &&& next(s, WorkerReply::Failed(e)).1 == WorkerAction::<Seq<char>>::End(Some(e))
        },
        s.phase == WorkerPhase::Mark ==> next(s, WorkerReply::Done).1 == WorkerAction::<
            Seq<char>,
        >::Execute(s.job_id) && next(s, WorkerReply::Failed(e)).1 == WorkerAction::<Seq<char>>::Execute(
            s.job_id,
        ),
        s.phase == WorkerPhase::Execute ==> {
            &&& next(s, WorkerReply::Deployed { checkout, log_path }).1 == (WorkerAction::<
                Seq<char>,
            >::CompleteSuccess { job_id: s.job_id, checkout, log_path })
            &&& next(s, WorkerReply::NotDeployed(failure)).1 == (WorkerAction::<Seq<char>>::OpenIssue {
                job_id: s.job_id,
                failure,
            })
            &&& next(s, WorkerReply::NotDeployed(failure)).0.failure == Some(failure)
        },
        s.phase == WorkerPhase::OpenIssue ==> {
            &&& next(s, WorkerReply::Issue(incident)).1 == (WorkerAction::<Seq<char>>::CompleteFailure {
                job_id: s.job_id,
                failure: s.failure->0,
                incident,
            })
            &&& next(s, WorkerReply::Failed(e)).1 == (WorkerAction::<Seq<char>>::CompleteFailure {
                job_id: s.job_id,
                failure: s.failure->0,
                incident: None,
            })
        },
        s.phase == WorkerPhase::Complete ==> next(s, WorkerReply::Done).1 == WorkerAction::<
            Seq<char>,
        >::End(None) && next(s, WorkerReply::Failed(e)).1 == WorkerAction::<Seq<char>>::End(Some(e)),
{
}

/// A release is built in its checkout and kept in its directory.
pub proof fn law_releases_are_built_in_their_checkout(checkout: Seq<char>, dir: Seq<char>)
    ensures
        ({
            let r = release_of(checkout, dir);
            &&& r.manifest == joined(checkout, "Cargo.toml"@)
            &&& r.orchd_built == joined(joined(joined(checkout, "target"@), "release"@), "orchd"@)
            &&& r.forgejoctl_built == joined(
                joined(joined(checkout, "target"@), "release"@),
                "forgejo-agent"@,
            )
            &&& r.bin_dir == joined(dir, "bin"@)
            &&& r.orchd == joined(joined(dir, "bin"@), "orchd"@)
            &&& r.forgejoctl == joined(joined(dir, "bin"@), "forgejoctl"@)
        }),
{
}

/// What is asked for is what is waited for, and nothing after the end.
pub proof fn law_passes_wait_for_what_they_ask(s: Pass<Seq<char>>, reply: WorkerReply<Seq<char>>)
    ensures
        ({
            let n = next(s, reply);
            &&& n.1 is MarkWorker <==> n.0.phase == WorkerPhase::Mark
            &&& n.1 is Execute <==> n.0.phase == WorkerPhase::Execute
            &&& n.1 is OpenIssue <==> n.0.phase == WorkerPhase::OpenIssue
            &&& n.1 is CompleteSuccess || n.1 is CompleteFailure <==> n.0.phase == WorkerPhase::Complete
            &&& n.1 is End <==> n.0.phase == WorkerPhase::Over
        }),
{
}

} // verus!
