//! The planning of an admitted dispatch: it is reserved, and its checkouts are made ready.

use crate::admission::{admission_view, bound_view, fault, Admission, Binding, Fault};
use crate::errors::DispatchError;
use crate::ledger::{DispatchInsert, DispatchReservation};
use crate::lexicon::{directive_uses_worktree, DIRECTIVE_IMPL};
use crate::paths::{join_path, joined, parent_of, path_parent};
use crate::repo::{
    beside, dispatch_branch, dispatch_worktree_branch, run_root, DEFAULT_GIT_BASE_BRANCH,
    DEFAULT_GIT_REMOTE,
};
use crate::text::{
    cat2, cat3, cat4, cat5, clone_opt, decimal, decimal_int, i64_text, opt_view, str_eq, texts,
    views,
};
use crate::types::{repo_parts, RepoRef};
use vstd::prelude::*;
use vstd::string::*;

verus! {

/// A repository that lands together with that of the issue, and its binding.
#[verifier::ext_equal]
pub struct Sidecar<S> {
    pub owner: S,
    pub repo: S,
    pub binding: Option<Binding<S>>,
}

/// Which answer the planning waits for.
#[derive(Clone, Copy, PartialEq, Eq, Structural)]
pub enum PlanPhase {
    Inflight,
    Session,
    Lock,
    Issue,
    Cursor,
    Delta,
    Reserve,
    RunDir,
    Checkout,
    AskLabels,
    EnsureLabels,
    RecordLabels,
    Worktree,
    SidecarCheckout,
    SidecarWorktree,
    Over,
}

/// Where the planning stands. Once it is over, it is the plan.
#[verifier::ext_equal]
pub struct Planning<S> {
    pub phase: PlanPhase,
    pub admission: Admission<S>,
    pub sidecar: Option<Sidecar<S>>,
    pub db_path: S,
    pub event_id: i64,
    pub session: Option<S>,
    pub lock_path: S,
    pub title: S,
    pub body: S,
    pub url: S,
    pub delta: S,
    pub dispatch_id: i64,
    pub run_dir: S,
    pub checkout: S,
    pub workdir: S,
    pub git_remote: S,
    pub git_base: S,
    pub git_branch: S,
    pub sidecar_checkout: S,
    pub sidecar_dir: S,
    pub sidecar_branch: S,
}

/// A worktree that is to be made.
#[verifier::ext_equal]
pub struct NewWorktree<S> {
    pub checkout: S,
    pub worktree: S,
    pub branch: S,
    pub remote: S,
    pub base: S,
}

/// What is done next.
#[verifier::ext_equal]
pub enum PlanAction<S, L, E> {
    /// Look for a dispatch of the issue that is under way, healing stale ones.
    FindInflight,
    /// Look for the latest session of the role on the issue.
    LatestSession,
    /// Take the lock of the repository; answered with its path.
    AcquireLock,
    /// Fetch the issue.
    FetchIssue,
    /// Look up to which event the role has seen the issue.
    ReadCursor,
    /// Read what happened on the issue, as text.
    ReadDelta { after: Option<i64>, limit: u64, fresh: bool },
    /// Reserve the dispatch, by the row that `reservation` gives.
    Reserve,
    /// Make the directory of the run.
    MakeRunDir(S),
    /// Make sure of the checkout of a repository; answered with its path.
    Checkout(S),
    /// Look whether the labels of the repository were made sure of.
    AskLabels,
    /// Make sure of them.
    EnsureLabels(L),
    /// Record that, with the error where there is one.
    RecordLabels(Option<S>),
    /// Make the worktree of the dispatch.
    AddWorktree(NewWorktree<S>),
    /// Make the directory above the worktree of the sidecar, then that worktree.
    AddSidecarWorktree { parent: Option<S>, worktree: NewWorktree<S> },
    /// The plan is ready.
    Ready,
    /// Refused. A lock that was taken before stays.
    Refuse(E),
    /// Refused; the lock is released.
    ReleaseAndRefuse { lock_path: S, error: E },
    /// The reserved dispatch failed to start: that is recorded and the lock is released.
    FailStart { dispatch_id: i64, lock_path: S, error: E },
}

/// An answer from outside.
#[verifier::ext_equal]
pub enum PlanReply<S, E> {
    Done,
    Number(i64),
    Nothing,
    Text(S),
    Issue { title: S, body: Option<S>, url: S },
    Started(i64),
    Taken(i64),
    There(bool),
    Failed(S),
    Error(E),
}

/// The answers that fit a phase.
pub open spec fn fits<S, E>(phase: PlanPhase, reply: PlanReply<S, E>) -> bool {
    match phase {
        PlanPhase::Inflight => reply is Number || reply is Nothing || reply is Failed,
        PlanPhase::Session => reply is Text || reply is Nothing || reply is Failed,
        PlanPhase::Lock => reply is Text || reply is Error,
        PlanPhase::Issue => reply is Issue || reply is Error,
        PlanPhase::Cursor => reply is Number || reply is Nothing || reply is Failed,
        PlanPhase::Delta => reply is Text || reply is Failed,
        PlanPhase::Reserve => reply is Started || reply is Taken || reply is Failed,
        PlanPhase::RunDir => reply is Done || reply is Failed,
        PlanPhase::Checkout => reply is Text || reply is Error,
        PlanPhase::AskLabels => reply is There,
        PlanPhase::EnsureLabels => reply is Done || reply is Failed,
        PlanPhase::RecordLabels => reply is Done,
        PlanPhase::Worktree => reply is Done || reply is Error,
        PlanPhase::SidecarCheckout => reply is Text || reply is Error,
        PlanPhase::SidecarWorktree => reply is Done || reply is Failed || reply is Error,
        PlanPhase::Over => false,
    }
}

/// The planning in contracts.
pub type PlanSpec = Planning<Seq<char>>;

/// A step in contracts.
pub type PlanStepSpec = (PlanSpec, PlanAction<Seq<char>, Seq<Seq<char>>, Fault>);

/// A step at run time.
pub type PlanStep = (Planning<String>, PlanAction<String, Vec<String>, DispatchError>);

/// The view of a sidecar.
pub open spec fn sidecar_view(s: Option<Sidecar<String>>) -> Option<Sidecar<Seq<char>>> {
    match s {
        Some(x) => Some(
            Sidecar { owner: x.owner@, repo: x.repo@, binding: bound_view(x.binding) },
        ),
        None => None,
    }
}

/// The view of the planning.
pub open spec fn plan_view(s: Planning<String>) -> PlanSpec {
    Planning {
        phase: s.phase,
        admission: admission_view(s.admission),
        sidecar: sidecar_view(s.sidecar),
        db_path: s.db_path@,
        event_id: s.event_id,
        session: opt_view(s.session),
        lock_path: s.lock_path@,
        title: s.title@,
        body: s.body@,
        url: s.url@,
        delta: s.delta@,
        dispatch_id: s.dispatch_id,
        run_dir: s.run_dir@,
        checkout: s.checkout@,
        workdir: s.workdir@,
        git_remote: s.git_remote@,
        git_base: s.git_base@,
        git_branch: s.git_branch@,
        sidecar_checkout: s.sidecar_checkout@,
        sidecar_dir: s.sidecar_dir@,
        sidecar_branch: s.sidecar_branch@,
    }
}

/// The view of a worktree that is to be made.
pub open spec fn worktree_view(w: NewWorktree<String>) -> NewWorktree<Seq<char>> {
    NewWorktree {
        checkout: w.checkout@,
        worktree: w.worktree@,
        branch: w.branch@,
        remote: w.remote@,
        base: w.base@,
    }
}

/// The view of an action.
pub open spec fn action_view(a: PlanAction<String, Vec<String>, DispatchError>) -> PlanAction<
    Seq<char>,
    Seq<Seq<char>>,
    Fault,
> {
    match a {
        PlanAction::FindInflight => PlanAction::FindInflight,
        PlanAction::LatestSession => PlanAction::LatestSession,
        PlanAction::AcquireLock => PlanAction::AcquireLock,
        PlanAction::FetchIssue => PlanAction::FetchIssue,
        PlanAction::ReadCursor => PlanAction::ReadCursor,
        PlanAction::ReadDelta { after, limit, fresh } => PlanAction::ReadDelta {
            after,
            limit,
            fresh,
        },
        PlanAction::Reserve => PlanAction::Reserve,
        PlanAction::MakeRunDir(t) => PlanAction::MakeRunDir(t@),
        PlanAction::Checkout(t) => PlanAction::Checkout(t@),
        PlanAction::AskLabels => PlanAction::AskLabels,
        PlanAction::EnsureLabels(l) => PlanAction::EnsureLabels(views(l@)),
        PlanAction::RecordLabels(t) => PlanAction::RecordLabels(opt_view(t)),
        PlanAction::AddWorktree(w) => PlanAction::AddWorktree(worktree_view(w)),
        PlanAction::AddSidecarWorktree { parent, worktree } => PlanAction::AddSidecarWorktree {
            parent: opt_view(parent),
            worktree: worktree_view(worktree),
        },
        PlanAction::Ready => PlanAction::Ready,
        PlanAction::Refuse(e) => PlanAction::Refuse(fault(e)),
        PlanAction::ReleaseAndRefuse { lock_path, error } => PlanAction::ReleaseAndRefuse {
            lock_path: lock_path@,
            error: fault(error),
        },
        PlanAction::FailStart { dispatch_id, lock_path, error } => PlanAction::FailStart {
            dispatch_id,
            lock_path: lock_path@,
            error: fault(error),
        },
    }
}

/// The view of a step.
pub open spec fn step_view(r: PlanStep) -> PlanStepSpec {
    (plan_view(r.0), action_view(r.1))
}

/// The view of an answer.
pub open spec fn reply_view(r: PlanReply<String, DispatchError>) -> PlanReply<Seq<char>, Fault> {
    match r {
        PlanReply::Done => PlanReply::Done,
        PlanReply::Number(n) => PlanReply::Number(n),
        PlanReply::Nothing => PlanReply::Nothing,
        PlanReply::Text(t) => PlanReply::Text(t@),
        PlanReply::Issue { title, body, url } => PlanReply::Issue {
            title: title@,
            body: opt_view(body),
            url: url@,
        },
        PlanReply::Started(n) => PlanReply::Started(n),
        PlanReply::Taken(n) => PlanReply::Taken(n),
        PlanReply::There(b) => PlanReply::There(b),
        PlanReply::Failed(t) => PlanReply::Failed(t@),
        PlanReply::Error(e) => PlanReply::Error(fault(e)),
    }
}

/// A failure of the database.
pub open spec fn db_fault(e: Seq<char>) -> Fault {
    ("db_failure"@, "db failure: "@ + e)
}

/// A failure of files or programs.
pub open spec fn io_fault(e: Seq<char>) -> Fault {
    ("io_failure"@, "io failure: "@ + e)
}

/// The planning waits for the answer to an action.
pub open spec fn waits(
    s: PlanSpec,
    phase: PlanPhase,
    action: PlanAction<Seq<char>, Seq<Seq<char>>, Fault>,
) -> PlanStepSpec {
    (Planning { phase, ..s }, action)
}

/// The planning is refused.
pub open spec fn refused(s: PlanSpec, error: Fault) -> PlanStepSpec {
    waits(s, PlanPhase::Over, PlanAction::Refuse(error))
}

/// The reserved dispatch failed to start.
pub open spec fn start_failed(s: PlanSpec, error: Fault) -> PlanStepSpec {
    waits(
        s,
        PlanPhase::Over,
        PlanAction::FailStart { dispatch_id: s.dispatch_id, lock_path: s.lock_path, error },
    )
}

/// A dispatch of the issue is under way.
pub open spec fn in_flight(a: Admission<Seq<char>>, dispatch_id: i64) -> Fault {
    (
        "issue_dispatch_in_flight"@,
        "issue dispatch already in flight for "@ + a.repo + "#"@ + decimal(a.issue_number as nat)
            + " (dispatch "@ + decimal_int(dispatch_id as int) + ")"@,
    )
}

/// How much of the issue's history a new session is told.
pub const FRESH_DELTA_LIMIT: u64 = 2000;

/// How much of it a session that goes on is told.
pub const FOLLOWUP_DELTA_LIMIT: u64 = 200;

/// What happened on the issue is read: all of it for a new session, which knows nothing, else what came
/// after what the role has seen.
pub open spec fn reading_delta(s: PlanSpec, cursor: Option<i64>) -> PlanStepSpec {
    waits(
        s,
        PlanPhase::Delta,
        PlanAction::ReadDelta {
            after: cursor,
            limit: if s.session is None {
                FRESH_DELTA_LIMIT
            } else {
                FOLLOWUP_DELTA_LIMIT
            },
            fresh: s.session is None,
        },
    )
}

/// The remote of the binding, or the default.
pub open spec fn remote_of(b: Option<Binding<Seq<char>>>) -> Seq<char> {
    match b {
        Some(x) => x.git_remote,
        None => DEFAULT_GIT_REMOTE@,
    }
}

/// The base of the binding, or the default.
pub open spec fn base_of(b: Option<Binding<Seq<char>>>) -> Seq<char> {
    match b {
        Some(x) => x.git_base,
        None => DEFAULT_GIT_BASE_BRANCH@,
    }
}

/// After the checkout is there and labelled: a directive that changes code gets a worktree of its own,
/// and any other works in the checkout.
pub open spec fn equipping(s: PlanSpec) -> PlanStepSpec {
    if s.admission.directive == DIRECTIVE_IMPL@ {
        let n = Planning {
            workdir: joined(s.run_dir, "worktree"@),
            git_remote: remote_of(s.admission.binding),
            git_base: base_of(s.admission.binding),
            git_branch: dispatch_branch(
                s.admission.repo,
                s.admission.issue_number,
                s.dispatch_id,
                s.admission.directive,
            ),
            ..s
        };
        waits(
            n,
            PlanPhase::Worktree,
            PlanAction::AddWorktree(
                NewWorktree {
                    checkout: n.checkout,
                    worktree: n.workdir,
                    branch: n.git_branch,
                    remote: n.git_remote,
                    base: n.git_base,
                },
            ),
        )
    } else {
        waits(
            Planning {
                workdir: s.checkout,
                git_remote: DEFAULT_GIT_REMOTE@,
                git_base: DEFAULT_GIT_BASE_BRANCH@,
                git_branch: Seq::empty(),
                ..s
            },
            PlanPhase::Over,
            PlanAction::Ready,
        )
    }
}

/// The full name of a sidecar.
pub open spec fn sidecar_name(x: Sidecar<Seq<char>>) -> Seq<char> {
    x.owner + "/"@ + x.repo
}

/// After the worktree of the dispatch: the sidecar comes next, where there is one.
pub open spec fn after_worktree(s: PlanSpec) -> PlanStepSpec {
    match s.sidecar {
        Some(x) => if x.binding is None {
            start_failed(
                s,
                io_fault(
                    "repo binding for "@ + s.admission.repo + " references sidecar repo "@
                        + sidecar_name(x) + " but it is missing from dispatch config"@,
                ),
            )
        } else {
            waits(s, PlanPhase::SidecarCheckout, PlanAction::Checkout(sidecar_name(x)))
        },
        None => waits(s, PlanPhase::Over, PlanAction::Ready),
    }
}

/// After the checkout of the sidecar.
pub open spec fn after_sidecar_checkout(s: PlanSpec, path: Seq<char>) -> PlanStepSpec {
    let x = s.sidecar->0;
    let n = Planning {
        sidecar_checkout: path,
        sidecar_dir: joined(joined(s.run_dir, "sidecar"@), x.owner + "__"@ + x.repo),
        sidecar_branch: dispatch_branch(
            sidecar_name(x),
            s.admission.issue_number,
            s.dispatch_id,
            s.admission.directive,
        ),
        ..s
    };
    waits(
        n,
        PlanPhase::SidecarWorktree,
        PlanAction::AddSidecarWorktree {
            parent: parent_of(n.sidecar_dir),
            worktree: NewWorktree {
                checkout: path,
                worktree: n.sidecar_dir,
                branch: n.sidecar_branch,
                remote: remote_of(x.binding),
                base: base_of(x.binding),
            },
        },
    )
}

/// After the dispatch was reserved: its run gets a directory.
pub open spec fn after_reserved(s: PlanSpec) -> PlanStepSpec {
    match beside(s.db_path, "dispatch-runs"@) {
        Some(root) => {
            let dir = joined(root, "dispatch-"@ + decimal_int(s.dispatch_id as int));
            waits(Planning { run_dir: dir, ..s }, PlanPhase::RunDir, PlanAction::MakeRunDir(dir))
        },
        None => start_failed(s, io_fault("db path has no parent"@)),
    }
}

/// How the planning goes on from an answer.
pub open spec fn next(s: PlanSpec, reply: PlanReply<Seq<char>, Fault>) -> PlanStepSpec {
    match s.phase {
        PlanPhase::Inflight => match reply {
            PlanReply::Number(id) => refused(s, in_flight(s.admission, id)),
            PlanReply::Failed(e) => refused(s, db_fault(e)),
            _ => waits(s, PlanPhase::Session, PlanAction::LatestSession),
        },
        PlanPhase::Session => match reply {
            PlanReply::Failed(e) => refused(s, db_fault(e)),
            PlanReply::Text(t) => waits(
                Planning { session: Some(t), ..s },
                PlanPhase::Lock,
                PlanAction::AcquireLock,
            ),
            _ => waits(
                Planning { session: None, ..s },
                PlanPhase::Lock,
                PlanAction::AcquireLock,
            ),
        },
        PlanPhase::Lock => match reply {
            PlanReply::Text(path) => if repo_parts(s.admission.repo) is None {
                refused(
                    Planning { lock_path: path, ..s },
                    ("invalid_issue_ref"@, "invalid issue ref: "@ + s.admission.repo),
                )
            } else {
                waits(
                    Planning { lock_path: path, ..s },
                    PlanPhase::Issue,
                    PlanAction::FetchIssue,
                )
            },
            PlanReply::Error(e) => refused(s, e),
            _ => arbitrary(),
        },
        PlanPhase::Issue => match reply {
            PlanReply::Issue { title, body, url } => {
                let n = Planning {
                    title,
                    body: match body {
                        Some(b) => b,
                        None => Seq::empty(),
                    },
                    url,
                    ..s
                };
                if s.session is None {
                    reading_delta(n, None)
                } else {
                    waits(n, PlanPhase::Cursor, PlanAction::ReadCursor)
                }
            },
            PlanReply::Error(e) => refused(s, e),
            _ => arbitrary(),
        },
        PlanPhase::Cursor => match reply {
            PlanReply::Number(id) => reading_delta(s, Some(id)),
            PlanReply::Failed(e) => refused(s, db_fault(e)),
            _ => reading_delta(s, None),
        },
        PlanPhase::Delta => match reply {
            PlanReply::Text(t) => waits(
                Planning { delta: t, ..s },
                PlanPhase::Reserve,
                PlanAction::Reserve,
            ),
            PlanReply::Failed(e) => refused(s, db_fault(e)),
            _ => arbitrary(),
        },
        PlanPhase::Reserve => match reply {
            PlanReply::Started(id) => after_reserved(Planning { dispatch_id: id, ..s }),
            PlanReply::Taken(id) => waits(
                s,
                PlanPhase::Over,
                PlanAction::ReleaseAndRefuse {
                    lock_path: s.lock_path,
                    error: in_flight(s.admission, id),
                },
            ),
            PlanReply::Failed(e) => refused(s, db_fault(e)),
            _ => arbitrary(),
        },
        PlanPhase::RunDir => match reply {
            PlanReply::Failed(e) => start_failed(s, io_fault("failed to create run dir: "@ + e)),
            _ => waits(s, PlanPhase::Checkout, PlanAction::Checkout(s.admission.repo)),
        },
        PlanPhase::Checkout => match reply {
            PlanReply::Text(path) => waits(
                Planning { checkout: path, ..s },
                PlanPhase::AskLabels,
                PlanAction::AskLabels,
            ),
            PlanReply::Error(e) => start_failed(s, e),
            _ => arbitrary(),
        },
        PlanPhase::AskLabels => match reply {
            PlanReply::There(true) => equipping(s),
            _ => waits(
                s,
                PlanPhase::EnsureLabels,
                PlanAction::EnsureLabels(seq!["repo"@, "ensure"@, s.admission.repo]),
            ),
        },
        PlanPhase::EnsureLabels => match reply {
            PlanReply::Failed(e) => waits(
                s,
                PlanPhase::RecordLabels,
                PlanAction::RecordLabels(Some(e)),
            ),
            _ => waits(s, PlanPhase::RecordLabels, PlanAction::RecordLabels(None)),
        },
        PlanPhase::RecordLabels => equipping(s),
        PlanPhase::Worktree => match reply {
            PlanReply::Error(e) => start_failed(s, e),
            _ => after_worktree(s),
        },
        PlanPhase::SidecarCheckout => match reply {
            PlanReply::Text(path) => after_sidecar_checkout(s, path),
            PlanReply::Error(e) => start_failed(s, e),
            _ => arbitrary(),
        },
        PlanPhase::SidecarWorktree => match reply {
            PlanReply::Failed(e) => start_failed(
                s,
                io_fault(
                    "failed creating sidecar worktree parent "@ + (match parent_of(s.sidecar_dir) {
                        Some(p) => p,
                        None => Seq::empty(),
                    }) + ": "@ + e,
                ),
            ),
            PlanReply::Error(e) => start_failed(s, e),
            _ => waits(s, PlanPhase::Over, PlanAction::Ready),
        },
        PlanPhase::Over => waits(s, PlanPhase::Over, PlanAction::Ready),
    }
}

/// A planning that works on a sidecar has one, with a binding.
pub open spec fn consistent(s: PlanSpec) -> bool {
    (s.phase == PlanPhase::SidecarCheckout || s.phase == PlanPhase::SidecarWorktree) ==> (s.sidecar
        matches Some(x) && x.binding is Some)
}

/// The state in which the planning begins.
pub open spec fn fresh(
    admission: Admission<Seq<char>>,
    sidecar: Option<Sidecar<Seq<char>>>,
    db_path: Seq<char>,
    event_id: i64,
) -> PlanSpec {
    Planning {
        phase: PlanPhase::Inflight,
        admission,
        sidecar,
        db_path,
        event_id,
        session: None,
        lock_path: Seq::empty(),
        title: Seq::empty(),
        body: Seq::empty(),
        url: Seq::empty(),
        delta: Seq::empty(),
        dispatch_id: 0,
        run_dir: Seq::empty(),
        checkout: Seq::empty(),
        workdir: Seq::empty(),
        git_remote: Seq::empty(),
        git_base: Seq::empty(),
        git_branch: Seq::empty(),
        sidecar_checkout: Seq::empty(),
        sidecar_dir: Seq::empty(),
        sidecar_branch: Seq::empty(),
    }
}

/// An empty text.
fn no_text() -> (r: String)
    ensures
        r@ == Seq::<char>::empty(),
{
    let t = String::new();
    proof {
        assert(t@ =~= Seq::<char>::empty());
    }
    t
}

/// The row that reserves the dispatch of a plan, for the decision and whoever asked, at a time.
pub fn reservation(
    s: &Planning<String>,
    decision_id: i64,
    actor_login: &Option<String>,
    now: &str,
) -> (r: DispatchInsert)
    ensures
        r.decision_id == decision_id,
        r.repo_full_name@ == s.admission.repo@,
        r.issue_number == s.admission.issue_number,
        r.actor_login == *actor_login,
        r.directive@ == s.admission.directive@,
        r.target_role@ == s.admission.role@,
        r.started_at@ == now@,
{
    DispatchInsert {
        decision_id,
        repo_full_name: s.admission.repo.clone(),
        issue_number: s.admission.issue_number,
        actor_login: clone_opt(actor_login),
        directive: s.admission.directive.clone(),
        target_role: s.admission.role.clone(),
        started_at: now.to_owned(),
    }
}

/// The answer that a reservation is: a dispatch of the issue or of the repository may be in its way.
pub fn reservation_reply(reserved: Result<DispatchReservation, String>) -> (r: PlanReply<
    String,
    DispatchError,
>)
    ensures
        r == (match reserved {
            Ok(DispatchReservation::Started(id)) => PlanReply::<String, DispatchError>::Started(id),
            Ok(DispatchReservation::InFlightIssue(id)) => PlanReply::Taken(id),
            Ok(DispatchReservation::InFlightRepo(id)) => PlanReply::Taken(id),
            Err(e) => PlanReply::Failed(e),
        }),
        fits(PlanPhase::Reserve, r),
{
    match reserved {
        Ok(DispatchReservation::Started(id)) => PlanReply::Started(id),
        Ok(DispatchReservation::InFlightIssue(id)) => PlanReply::Taken(id),
        Ok(DispatchReservation::InFlightRepo(id)) => PlanReply::Taken(id),
        Err(e) => PlanReply::Failed(e),
    }
}

/// Begins to plan an admitted dispatch.
pub fn begin_plan(
    admission: Admission<String>,
    sidecar: Option<Sidecar<String>>,
    db_path: &str,
    event_id: i64,
) -> (r: PlanStep)
    ensures
        step_view(r) == (
            fresh(admission_view(admission), sidecar_view(sidecar), db_path@, event_id),
            PlanAction::<Seq<char>, Seq<Seq<char>>, Fault>::FindInflight,
        ),
        consistent(plan_view(r.0)),
{
    let s = Planning {
        phase: PlanPhase::Inflight,
        admission,
        sidecar,
        db_path: db_path.to_owned(),
        event_id,
        session: None,
        lock_path: no_text(),
        title: no_text(),
        body: no_text(),
        url: no_text(),
        delta: no_text(),
        dispatch_id: 0,
        run_dir: no_text(),
        checkout: no_text(),
        workdir: no_text(),
        git_remote: no_text(),
        git_base: no_text(),
        git_branch: no_text(),
        sidecar_checkout: no_text(),
        sidecar_dir: no_text(),
        sidecar_branch: no_text(),
    };
    (s, PlanAction::FindInflight)
}

/// The planning waits for the answer to an action.
fn wait(
    s: Planning<String>,
    phase: PlanPhase,
    action: PlanAction<String, Vec<String>, DispatchError>,
) -> (r: PlanStep)
    ensures
        step_view(r) == waits(plan_view(s), phase, action_view(action)),
{
    let mut s = s;
    s.phase = phase;
    (s, action)
}

/// The planning is refused.
fn refuse(s: Planning<String>, error: DispatchError) -> (r: PlanStep)
    ensures
        step_view(r) == refused(plan_view(s), fault(error)),
{
    wait(s, PlanPhase::Over, PlanAction::Refuse(error))
}

/// The reserved dispatch failed to start.
fn fail_dispatch_start(s: Planning<String>, error: DispatchError) -> (r: PlanStep)
    ensures
        step_view(r) == start_failed(plan_view(s), fault(error)),
{
    let dispatch_id: i64 = s.dispatch_id;
    let lock_path = s.lock_path.clone();
    wait(s, PlanPhase::Over, PlanAction::FailStart { dispatch_id, lock_path, error })
}

/// A dispatch of the issue is under way.
fn busy(s: &Planning<String>, dispatch_id: i64) -> (r: DispatchError)
    ensures
        fault(r) == in_flight(plan_view(*s).admission, dispatch_id),
{
    DispatchError::IssueDispatchInFlight {
        repo_full_name: s.admission.repo.clone(),
        issue_number: s.admission.issue_number,
        dispatch_id,
    }
}

/// What happened on the issue is read.
fn read_delta(s: Planning<String>, cursor: Option<i64>) -> (r: PlanStep)
    ensures
        step_view(r) == reading_delta(plan_view(s), cursor),
{
    let fresh = s.session.is_none();
    let limit: u64 = if fresh {
        FRESH_DELTA_LIMIT
    } else {
        FOLLOWUP_DELTA_LIMIT
    };
    wait(s, PlanPhase::Delta, PlanAction::ReadDelta { after: cursor, limit, fresh })
}

/// The remote of the binding, or the default.
fn remote_for(b: &Option<Binding<String>>) -> (r: String)
    ensures
        r@ == remote_of(bound_view(*b)),
{
    match b {
        Some(x) => x.git_remote.clone(),
        None => DEFAULT_GIT_REMOTE.to_owned(),
    }
}

/// The base of the binding, or the default.
fn base_for(b: &Option<Binding<String>>) -> (r: String)
    ensures
        r@ == base_of(bound_view(*b)),
{
    match b {
        Some(x) => x.git_base.clone(),
        None => DEFAULT_GIT_BASE_BRANCH.to_owned(),
    }
}

/// After the checkout is there and labelled.
fn equip(s: Planning<String>) -> (r: PlanStep)
    ensures
        step_view(r) == equipping(plan_view(s)),
{
    let mut s = s;
    if directive_uses_worktree(s.admission.directive.as_str()) {
        s.workdir = join_path(s.run_dir.as_str(), "worktree");
        s.git_remote = remote_for(&s.admission.binding);
        s.git_base = base_for(&s.admission.binding);
        s.git_branch =
        dispatch_worktree_branch(
            s.admission.repo.as_str(),
            s.admission.issue_number,
            s.dispatch_id,
            s.admission.directive.as_str(),
        );
        let w = NewWorktree {
            checkout: s.checkout.clone(),
            worktree: s.workdir.clone(),
            branch: s.git_branch.clone(),
            remote: s.git_remote.clone(),
            base: s.git_base.clone(),
        };
        wait(s, PlanPhase::Worktree, PlanAction::AddWorktree(w))
    } else {
        s.workdir = s.checkout.clone();
        s.git_remote = DEFAULT_GIT_REMOTE.to_owned();
        s.git_base = DEFAULT_GIT_BASE_BRANCH.to_owned();
        s.git_branch = no_text();
        wait(s, PlanPhase::Over, PlanAction::Ready)
    }
}

/// After the worktree of the dispatch.
fn on_worktree(s: Planning<String>) -> (r: PlanStep)
    ensures
        step_view(r) == after_worktree(plan_view(s)),
{
    match &s.sidecar {
        Some(x) => {
            let name = cat3(x.owner.as_str(), "/", x.repo.as_str());
            if x.binding.is_none() {
                let m = cat5(
                    "repo binding for ",
                    s.admission.repo.as_str(),
                    " references sidecar repo ",
                    name.as_str(),
                    " but it is missing from dispatch config",
                );
                fail_dispatch_start(s, DispatchError::Io(m))
            } else {
                wait(s, PlanPhase::SidecarCheckout, PlanAction::Checkout(name))
            }
        },
        None => wait(s, PlanPhase::Over, PlanAction::Ready),
    }
}

/// After the checkout of the sidecar.
fn on_sidecar_checkout(s: Planning<String>, path: String) -> (r: PlanStep)
    requires
        s.sidecar is Some,
    ensures
        step_view(r) == after_sidecar_checkout(plan_view(s), path@),
{
    let mut s = s;
    if let Some(x) = &s.sidecar {
        let name = cat3(x.owner.as_str(), "/", x.repo.as_str());
        let leaf = cat3(x.owner.as_str(), "__", x.repo.as_str());
        let above = join_path(s.run_dir.as_str(), "sidecar");
        let dir = join_path(above.as_str(), leaf.as_str());
        let branch = dispatch_worktree_branch(
            name.as_str(),
            s.admission.issue_number,
            s.dispatch_id,
            s.admission.directive.as_str(),
        );
        let worktree = NewWorktree {
            checkout: path.clone(),
            worktree: dir.clone(),
            branch: branch.clone(),
            remote: remote_for(&x.binding),
            base: base_for(&x.binding),
        };
        let parent = path_parent(dir.as_str());
        s.sidecar_checkout = path;
        s.sidecar_dir = dir;
        s.sidecar_branch = branch;
        return wait(
            s,
            PlanPhase::SidecarWorktree,
            PlanAction::AddSidecarWorktree { parent, worktree },
        );
    }
    wait(s, PlanPhase::Over, PlanAction::Ready)
}

/// After the dispatch was reserved.
fn on_reserved(s: Planning<String>) -> (r: PlanStep)
    ensures
        step_view(r) == after_reserved(plan_view(s)),
{
    match run_root(s.db_path.as_str()) {
        Ok(root) => {
            let n = i64_text(s.dispatch_id);
            let name = cat2("dispatch-", n.as_str());
            let dir = join_path(root.as_str(), name.as_str());
            let mut s = s;
            s.run_dir = dir.clone();
            wait(s, PlanPhase::RunDir, PlanAction::MakeRunDir(dir))
        },
        Err(e) => fail_dispatch_start(s, e),
    }
}

/// Takes the planning on from an answer.
pub fn plan_dispatch(s: Planning<String>, reply: PlanReply<String, DispatchError>) -> (r: PlanStep)
    requires
        fits(s.phase, reply),
        consistent(plan_view(s)),
    ensures
        step_view(r) == next(plan_view(s), reply_view(reply)),
        consistent(plan_view(r.0)),
{
    let mut s = s;
    match s.phase {
        PlanPhase::Inflight => match reply {
            PlanReply::Number(id) => {
                let e = busy(&s, id);
                refuse(s, e)
            },
            PlanReply::Failed(e) => refuse(s, DispatchError::Db(e)),
            _ => wait(s, PlanPhase::Session, PlanAction::LatestSession),
        },
        PlanPhase::Session => match reply {
            PlanReply::Failed(e) => refuse(s, DispatchError::Db(e)),
            PlanReply::Text(t) => {
                s.session = Some(t);
                wait(s, PlanPhase::Lock, PlanAction::AcquireLock)
            },
            _ => {
                s.session = None;
                wait(s, PlanPhase::Lock, PlanAction::AcquireLock)
            },
        },
        PlanPhase::Lock => match reply {
            PlanReply::Text(path) => {
                s.lock_path = path;
                if RepoRef::parse(s.admission.repo.as_str()).is_err() {
                    let repo = s.admission.repo.clone();
                    refuse(s, DispatchError::InvalidIssueRef(repo))
                } else {
                    wait(s, PlanPhase::Issue, PlanAction::FetchIssue)
                }
            },
            PlanReply::Error(e) => refuse(s, e),
            _ => wait(s, PlanPhase::Over, PlanAction::Ready),
        },
        PlanPhase::Issue => match reply {
            PlanReply::Issue { title, body, url } => {
                s.title = title;
                s.body =
                match body {
                    Some(b) => b,
                    None => no_text(),
                };
                s.url = url;
                if s.session.is_none() {
                    read_delta(s, None)
                } else {
                    wait(s, PlanPhase::Cursor, PlanAction::ReadCursor)
                }
            },
            PlanReply::Error(e) => refuse(s, e),
            _ => wait(s, PlanPhase::Over, PlanAction::Ready),
        },
        PlanPhase::Cursor => match reply {
            PlanReply::Number(id) => read_delta(s, Some(id)),
            PlanReply::Failed(e) => refuse(s, DispatchError::Db(e)),
            _ => read_delta(s, None),
        },
        PlanPhase::Delta => match reply {
            PlanReply::Text(t) => {
                s.delta = t;
                wait(s, PlanPhase::Reserve, PlanAction::Reserve)
            },
            PlanReply::Failed(e) => refuse(s, DispatchError::Db(e)),
            _ => wait(s, PlanPhase::Over, PlanAction::Ready),
        },
        PlanPhase::Reserve => match reply {
            PlanReply::Started(id) => {
                s.dispatch_id = id;
                on_reserved(s)
            },
            PlanReply::Taken(id) => {
                let error = busy(&s, id);
                let lock_path = s.lock_path.clone();
                wait(s, PlanPhase::Over, PlanAction::ReleaseAndRefuse { lock_path, error })
            },
            PlanReply::Failed(e) => refuse(s, DispatchError::Db(e)),
            _ => wait(s, PlanPhase::Over, PlanAction::Ready),
        },
        PlanPhase::RunDir => match reply {
            PlanReply::Failed(e) => {
                let m = cat2("failed to create run dir: ", e.as_str());
                fail_dispatch_start(s, DispatchError::Io(m))
            },
            _ => {
                let repo = s.admission.repo.clone();
                wait(s, PlanPhase::Checkout, PlanAction::Checkout(repo))
            },
        },
        PlanPhase::Checkout => match reply {
            PlanReply::Text(path) => {
                s.checkout = path;
                wait(s, PlanPhase::AskLabels, PlanAction::AskLabels)
            },
            PlanReply::Error(e) => fail_dispatch_start(s, e),
            _ => wait(s, PlanPhase::Over, PlanAction::Ready),
        },
        PlanPhase::AskLabels => {
            if let PlanReply::There(true) = reply {
                return equip(s);
            }
            let a = ["repo", "ensure", s.admission.repo.as_str()];
            let list = texts(&a);
            proof {
                assert(views(list@) =~= seq!["repo"@, "ensure"@, s.admission.repo@]);
            }
            wait(s, PlanPhase::EnsureLabels, PlanAction::EnsureLabels(list))
        },
        PlanPhase::EnsureLabels => match reply {
            PlanReply::Failed(e) => wait(
                s,
                PlanPhase::RecordLabels,
                PlanAction::RecordLabels(Some(e)),
            ),
            _ => wait(s, PlanPhase::RecordLabels, PlanAction::RecordLabels(None)),
        },
        PlanPhase::RecordLabels => equip(s),
        PlanPhase::Worktree => match reply {
            PlanReply::Error(e) => fail_dispatch_start(s, e),
            _ => on_worktree(s),
        },
        PlanPhase::SidecarCheckout => match reply {
            PlanReply::Text(path) => on_sidecar_checkout(s, path),
            PlanReply::Error(e) => fail_dispatch_start(s, e),
            _ => wait(s, PlanPhase::Over, PlanAction::Ready),
        },
        PlanPhase::SidecarWorktree => match reply {
            PlanReply::Failed(e) => {
                let parent = match path_parent(s.sidecar_dir.as_str()) {
                    Some(p) => p,
                    None => no_text(),
                };
                let m = cat4(
                    "failed creating sidecar worktree parent ",
                    parent.as_str(),
                    ": ",
                    e.as_str(),
                );
                fail_dispatch_start(s, DispatchError::Io(m))
            },
            PlanReply::Error(e) => fail_dispatch_start(s, e),
            _ => wait(s, PlanPhase::Over, PlanAction::Ready),
        },
        PlanPhase::Over => wait(s, PlanPhase::Over, PlanAction::Ready),
    }
}

/// Where the principal's checkout is brought up to date after the dispatch: that of the binding, for a
/// directive that changes code.
pub fn principal_workdir(s: &Planning<String>) -> (r: Option<String>)
    ensures
        opt_view(r) == (if s.admission.directive@ == DIRECTIVE_IMPL@ {
            match s.admission.binding {
                Some(b) => Some(b.local_path@),
                None => None,
            }
        } else {
            None
        }),
{
    if str_eq(s.admission.directive.as_str(), DIRECTIVE_IMPL) {
        match &s.admission.binding {
            Some(b) => Some(b.local_path.clone()),
            None => None,
        }
    } else {
        None
    }
}

/// How far the planning is from its end.
pub open spec fn distance(phase: PlanPhase) -> nat {
    match phase {
        PlanPhase::Inflight => 15,
        PlanPhase::Session => 14,
        PlanPhase::Lock => 13,
        PlanPhase::Issue => 12,
        PlanPhase::Cursor => 11,
        PlanPhase::Delta => 10,
        PlanPhase::Reserve => 9,
        PlanPhase::RunDir => 8,
        PlanPhase::Checkout => 7,
        PlanPhase::AskLabels => 6,
        PlanPhase::EnsureLabels => 5,
        PlanPhase::RecordLabels => 4,
        PlanPhase::Worktree => 3,
        PlanPhase::SidecarCheckout => 2,
        PlanPhase::SidecarWorktree => 1,
        PlanPhase::Over => 0,
    }
}

/// Whatever the answers, the planning ends; and what was admitted stays as it was.
pub proof fn law_planning_ends(s: PlanSpec, reply: PlanReply<Seq<char>, Fault>)
    requires
        consistent(s),
        fits(s.phase, reply),
    ensures
        distance(next(s, reply).0.phase) < distance(s.phase),
        next(s, reply).0.admission == s.admission,
        consistent(next(s, reply).0),
{
}

/// A dispatch that was reserved is not forgotten: once it is, the planning ends with the plan or with
/// its failed start; before that it ends with neither.
pub proof fn law_reserved_dispatches_are_settled(s: PlanSpec, reply: PlanReply<Seq<char>, Fault>)
    requires
        consistent(s),
        fits(s.phase, reply),
        next(s, reply).0.phase == PlanPhase::Over,
    ensures
        distance(s.phase) < distance(PlanPhase::Reserve) ==> next(s, reply).1 is Ready || next(
            s,
            reply,
        ).1 is FailStart,
        distance(s.phase) > distance(PlanPhase::Reserve) ==> next(s, reply).1 is Refuse,
        s.phase == PlanPhase::Reserve ==> next(s, reply).1 is Refuse || next(s, reply).1
            is ReleaseAndRefuse || (reply is Started && next(s, reply).1 is FailStart),
{
}

/// A new session is told everything: its reading begins at no cursor.
pub proof fn law_fresh_sessions_read_everything(s: PlanSpec, reply: PlanReply<Seq<char>, Fault>)
    requires
        fits(s.phase, reply),
        s.phase != PlanPhase::Cursor,
        next(s, reply).1 is ReadDelta,
    ensures
        next(s, reply).1 matches PlanAction::ReadDelta { after, limit, fresh } && after is None
            && fresh && limit == FRESH_DELTA_LIMIT,
{
}

/// A dispatch is planned only where none of its issue is under way, and what refuses it before it is
/// reserved names the reason.
pub proof fn law_busy_issues_are_refused(s: PlanSpec, id: i64)
    ensures
        s.phase == PlanPhase::Inflight ==> (next(s, PlanReply::Number(id)).1 matches PlanAction::Refuse(e)
            && e.0 == "issue_dispatch_in_flight"@) && next(s, PlanReply::Nothing).1 is LatestSession,
        s.phase == PlanPhase::Reserve ==> (next(s, PlanReply::Taken(id)).1 matches
            PlanAction::ReleaseAndRefuse { lock_path, error } && lock_path == s.lock_path && error.0
            == "issue_dispatch_in_flight"@) && next(s, PlanReply::Taken(id)).0.dispatch_id
            == s.dispatch_id,
        s.phase == PlanPhase::Reserve ==> next(s, PlanReply::Started(id)).0.dispatch_id == id,
{
}

/// A session that goes on is told what happened after what its role has seen, and a new one everything;
/// the session is the latest one that was found.
pub proof fn law_sessions_go_on_where_they_were(
    s: PlanSpec,
    session: Seq<char>,
    cursor: i64,
    title: Seq<char>,
    body: Option<Seq<char>>,
    url: Seq<char>,
)
    ensures
        s.phase == PlanPhase::Session ==> next(s, PlanReply::Text(session)).0.session == Some(session)
            && next(s, PlanReply::Nothing).0.session is None && next(s, PlanReply::Nothing).1
            is AcquireLock && next(s, PlanReply::Text(session)).1 is AcquireLock,
        s.phase == PlanPhase::Issue ==> ({
            let n = next(s, PlanReply::Issue { title, body, url });
            &&& n.0.title == title
            &&& n.0.url == url
            &&& body matches Some(b) ==> n.0.body == b
            &&& s.session is Some ==> n.1 is ReadCursor
            &&& s.session is None ==> n.1 == (PlanAction::<Seq<char>, Seq<Seq<char>>, Fault>::ReadDelta {
                after: None,
                limit: 2000,
                fresh: true,
            })
        }),
        s.phase == PlanPhase::Cursor && s.session is Some ==> next(s, PlanReply::Number(cursor)).1 == (
        PlanAction::<Seq<char>, Seq<Seq<char>>, Fault>::ReadDelta {
            after: Some(cursor),
            limit: 200,
            fresh: false,
        }) && next(s, PlanReply::Nothing).1 == (PlanAction::<
            Seq<char>,
            Seq<Seq<char>>,
            Fault,
        >::ReadDelta { after: None, limit: 200, fresh: false }),
        s.phase == PlanPhase::Delta ==> next(s, PlanReply::Text(session)).0.delta == session && next(
            s,
            PlanReply::Text(session),
        ).1 is Reserve,
{
}

/// A dispatch that changes code works in a worktree of its own below its run, on a branch of its own from
/// the base of the binding; any other works in the checkout and has no branch.
pub proof fn law_code_is_changed_in_a_worktree(s: PlanSpec)
    requires
        s.phase == PlanPhase::AskLabels,
    ensures
        ({
            let n = next(s, PlanReply::There(true));
            if s.admission.directive == "impl"@ {
                &&& n.1 matches PlanAction::AddWorktree(w) && w.checkout == s.checkout && w.worktree
                    == joined(s.run_dir, "worktree"@) && w.branch == dispatch_branch(
                    s.admission.repo,
                    s.admission.issue_number,
                    s.dispatch_id,
                    s.admission.directive,
                ) && (s.admission.binding matches Some(b) ==> w.remote == b.git_remote && w.base
                    == b.git_base) && n.0.workdir == w.worktree && n.0.git_branch == w.branch
                    && n.0.git_base == w.base && n.0.git_remote == w.remote
                &&& s.sidecar is None ==> next(n.0, PlanReply::Done).1 is Ready
                &&& s.sidecar matches Some(x) ==> (x.binding is Some ==> next(n.0, PlanReply::Done).1
                    == PlanAction::<Seq<char>, Seq<Seq<char>>, Fault>::Checkout(
                    x.owner + "/"@ + x.repo,
                )) && (x.binding is None ==> next(n.0, PlanReply::Done).1 is FailStart)
            } else {
                n.1 is Ready && n.0.workdir == s.checkout && n.0.git_branch.len() == 0
            }
        }),
        next(s, PlanReply::There(false)).1 == PlanAction::<Seq<char>, Seq<Seq<char>>, Fault>::EnsureLabels(
            seq!["repo"@, "ensure"@, s.admission.repo],
        ),
{
}

/// The sidecar gets a worktree of its own below the run, on a branch of the dispatch, from the base of its
/// binding.
pub proof fn law_sidecars_get_their_worktree(s: PlanSpec, path: Seq<char>)
    requires
        s.phase == PlanPhase::SidecarCheckout,
        s.sidecar matches Some(x) && x.binding is Some,
    ensures
        ({
            let x = s.sidecar->0;
            let n = next(s, PlanReply::Text(path));
            &&& n.1 matches PlanAction::AddSidecarWorktree { worktree: w, .. } && w.checkout == path
                && w.worktree == joined(joined(s.run_dir, "sidecar"@), x.owner + "__"@ + x.repo)
                && w.branch == dispatch_branch(
                x.owner + "/"@ + x.repo,
                s.admission.issue_number,
                s.dispatch_id,
                s.admission.directive,
            ) && w.remote == x.binding->0.git_remote && w.base == x.binding->0.git_base
                && n.0.sidecar_dir == w.worktree && n.0.sidecar_branch == w.branch
                && n.0.sidecar_checkout == path
            &&& next(n.0, PlanReply::Done).1 is Ready
        }),
{
}

/// Whatever fails once a dispatch is reserved ends it as failed to start, under its number and with its
/// lock; labels that could not be made sure of do not.
pub proof fn law_reserved_dispatches_fail_by_number(s: PlanSpec, e: Seq<char>, error: Fault)
    ensures
        s.phase == PlanPhase::RunDir || s.phase == PlanPhase::SidecarWorktree ==> (next(
            s,
            PlanReply::Failed(e),
        ).1 matches PlanAction::FailStart { dispatch_id, lock_path, error: f } && dispatch_id
            == s.dispatch_id && lock_path == s.lock_path && f.0 == "io_failure"@),
        s.phase == PlanPhase::Checkout || s.phase == PlanPhase::Worktree || s.phase
            == PlanPhase::SidecarCheckout || s.phase == PlanPhase::SidecarWorktree ==> next(
            s,
            PlanReply::Error(error),
        ).1 == (PlanAction::<Seq<char>, Seq<Seq<char>>, Fault>::FailStart {
            dispatch_id: s.dispatch_id,
            lock_path: s.lock_path,
            error,
        }),
        s.phase == PlanPhase::EnsureLabels ==> next(s, PlanReply::Failed(e)).1 == PlanAction::<
            Seq<char>,
            Seq<Seq<char>>,
            Fault,
        >::RecordLabels(Some(e)) && next(s, PlanReply::Done).1 == PlanAction::<
            Seq<char>,
            Seq<Seq<char>>,
            Fault,
        >::RecordLabels(None),
        s.phase == PlanPhase::RecordLabels ==> next(s, PlanReply::Done).1 is AddWorktree || next(
            s,
            PlanReply::Done,
        ).1 is Ready,
        s.phase == PlanPhase::RunDir ==> next(s, PlanReply::Done).1 == PlanAction::<
            Seq<char>,
            Seq<Seq<char>>,
            Fault,
        >::Checkout(s.admission.repo),
        s.phase == PlanPhase::Checkout ==> next(s, PlanReply::Text(e)).0.checkout == e && next(
            s,
            PlanReply::Text(e),
        ).1 is AskLabels,
{
}

/// What is asked for is what is waited for, and nothing after the end.
pub proof fn law_planning_waits_for_what_it_asks(s: PlanSpec, reply: PlanReply<Seq<char>, Fault>)
    requires
        consistent(s),
        fits(s.phase, reply),
    ensures
        ({
            let n = next(s, reply);
            let p = n.0.phase;
            &&& n.1 is LatestSession <==> p == PlanPhase::Session
            &&& n.1 is AcquireLock <==> p == PlanPhase::Lock
            &&& n.1 is FetchIssue <==> p == PlanPhase::Issue
            &&& n.1 is ReadCursor <==> p == PlanPhase::Cursor
            &&& n.1 is ReadDelta <==> p == PlanPhase::Delta
            &&& n.1 is Reserve <==> p == PlanPhase::Reserve
            &&& n.1 is MakeRunDir <==> p == PlanPhase::RunDir
            &&& n.1 is Checkout <==> p == PlanPhase::Checkout || p == PlanPhase::SidecarCheckout
            &&& p == PlanPhase::Checkout ==> s.phase == PlanPhase::RunDir
            &&& p == PlanPhase::SidecarCheckout ==> s.phase == PlanPhase::Worktree
            &&& n.1 is AskLabels <==> p == PlanPhase::AskLabels
            &&& n.1 is EnsureLabels <==> p == PlanPhase::EnsureLabels
            &&& n.1 is RecordLabels <==> p == PlanPhase::RecordLabels
            &&& n.1 is AddWorktree <==> p == PlanPhase::Worktree
            &&& n.1 is AddSidecarWorktree <==> p == PlanPhase::SidecarWorktree
            &&& n.1 is Ready || n.1 is Refuse || n.1 is ReleaseAndRefuse || n.1 is FailStart <==> p
                == PlanPhase::Over
        }),
{
}

/// A plan takes its lock, reads its issue and reserves its dispatch, which runs in its own directory next
/// to the store; its repository is checked out and its labels are made sure of.
pub proof fn law_plans_go_their_way(s: PlanSpec, id: i64, text: Seq<char>, root: Seq<char>, e: Seq<char>)
    ensures
        s.phase == PlanPhase::Lock && repo_parts(s.admission.repo) is Some ==> next(
            s,
            PlanReply::Text(text),
        ).1 is FetchIssue && next(s, PlanReply::Text(text)).0.lock_path == text,
        s.phase == PlanPhase::Lock && repo_parts(s.admission.repo) is None ==> (next(
            s,
            PlanReply::Text(text),
        ).1 matches PlanAction::Refuse(f) && f.0 == "invalid_issue_ref"@),
        s.phase == PlanPhase::Reserve && beside(s.db_path, "dispatch-runs"@) == Some(root) ==> next(
            s,
            PlanReply::Started(id),
        ).1 == PlanAction::<Seq<char>, Seq<Seq<char>>, Fault>::MakeRunDir(
            joined(root, "dispatch-"@ + decimal_int(id as int)),
        ) && next(s, PlanReply::Started(id)).0.run_dir == joined(
            root,
            "dispatch-"@ + decimal_int(id as int),
        ),
        s.phase == PlanPhase::RunDir ==> next(s, PlanReply::Done).1 == PlanAction::<
            Seq<char>,
            Seq<Seq<char>>,
            Fault,
        >::Checkout(s.admission.repo) && next(s, PlanReply::Failed(e)).1 is FailStart,
        s.phase == PlanPhase::Checkout ==> next(s, PlanReply::Text(text)).1 is AskLabels && next(
            s,
            PlanReply::Text(text),
        ).0.checkout == text,
        s.phase == PlanPhase::EnsureLabels ==> next(s, PlanReply::Done).1 == PlanAction::<
            Seq<char>,
            Seq<Seq<char>>,
            Fault,
        >::RecordLabels(None) && next(s, PlanReply::Failed(e)).1 == PlanAction::<
            Seq<char>,
            Seq<Seq<char>>,
            Fault,
        >::RecordLabels(Some(e)),
        s.phase == PlanPhase::Inflight || s.phase == PlanPhase::Session || s.phase == PlanPhase::Cursor
            || s.phase == PlanPhase::Delta || s.phase == PlanPhase::Reserve ==> (next(
            s,
            PlanReply::Failed(e),
        ).1 matches PlanAction::Refuse(f) && f.0 == "db_failure"@),
{
}

} // verus!
