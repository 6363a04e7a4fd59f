//! A run from its files to its end: the session is resumed or begun afresh, its outcome is written down
//! and finalized, and the lock is released.

use crate::finalize::ReportedStatus;
use crate::runner::{
    codex_status_for_exit_code, lock_cleanup_failure, resume_fallback, session_view, status_of,
    CodexRunMode, CodexSessionId,
};
use vstd::prelude::*;
use vstd::string::*;

verus! {

/// Which answer a run waits for.
#[derive(Clone, Copy, PartialEq, Eq, Structural, Debug)]
pub enum RunPhase {
    Truncate,
    Marker,
    Resume,
    LogFallback,
    Fresh,
    LogSession,
    NewerSession,
    Summary,
    Completion,
    Finalize,
    RemoveLock,
    LogCleanup,
    Over,
}

/// A run: the session that it resumes, how it exited, the session that it had, and what came of its
/// finalizing.
#[verifier::ext_equal]
pub struct Running<S, I> {
    pub phase: RunPhase,
    pub lock_path: S,
    pub resumes: Option<I>,
    pub exit_code: i64,
    pub session: Option<I>,
    pub error: Option<S>,
}

/// What is done next.
#[verifier::ext_equal]
pub enum RunAction<S, I> {
    /// Empty the log.
    TruncateLog,
    /// Write the file that marks when the run began.
    WriteMarker,
    /// Run the model.
    Run(CodexRunMode),
    /// Append the line to the log.
    AppendLog(S),
    /// Look for the session in the log.
    ReadLogSession,
    /// Look for it among the sessions that are newer than the marker.
    FindNewerSession,
    /// Write the summary.
    WriteSummary,
    /// Write the completion.
    WriteCompletion { status: ReportedStatus, session: Option<I> },
    /// Finalize the dispatch.
    Finalize { status: ReportedStatus, exit_code: i64, session: Option<I> },
    /// Remove the lock.
    RemoveLock(S),
    /// The run is over, with the error where there is one.
    End(Option<S>),
}

/// What came of it. A lock that was not there counts as removed.
#[verifier::ext_equal]
pub enum RunReply<S, I> {
    Done,
    Exit(i64),
    Session(Option<I>),
    Failed(S),
}

/// A run in contracts.
pub type RunSpec = Running<Seq<char>, Seq<char>>;

/// A step in contracts.
pub type RunStepSpec = (RunSpec, RunAction<Seq<char>, Seq<char>>);

/// A run at run time.
pub type DispatchRun = Running<String, CodexSessionId>;

/// A step at run time.
pub type RunStep = (DispatchRun, RunAction<String, CodexSessionId>);

/// The view of a run.
pub open spec fn run_view(s: DispatchRun) -> RunSpec {
    Running {
        phase: s.phase,
        lock_path: s.lock_path@,
        resumes: session_view(s.resumes),
        exit_code: s.exit_code,
        session: session_view(s.session),
        error: match s.error {
            Some(x) => Some(x@),
            None => None,
        },
    }
}

/// The view of an action.
pub open spec fn action_view(a: RunAction<String, CodexSessionId>) -> RunAction<
    Seq<char>,
    Seq<char>,
> {
    match a {
        RunAction::TruncateLog => RunAction::TruncateLog,
        RunAction::WriteMarker => RunAction::WriteMarker,
        RunAction::Run(mode) => RunAction::Run(mode),
        RunAction::AppendLog(t) => RunAction::AppendLog(t@),
        RunAction::ReadLogSession => RunAction::ReadLogSession,
        RunAction::FindNewerSession => RunAction::FindNewerSession,
        RunAction::WriteSummary => RunAction::WriteSummary,
        RunAction::WriteCompletion { status, session } => RunAction::WriteCompletion {
            status,
            session: session_view(session),
        },
        RunAction::Finalize { status, exit_code, session } => RunAction::Finalize {
            status,
            exit_code,
            session: session_view(session),
        },
        RunAction::RemoveLock(t) => RunAction::RemoveLock(t@),
        RunAction::End(e) => RunAction::End(
            match e {
                Some(x) => Some(x@),
                None => None,
            },
        ),
    }
}

/// The view of a step.
pub open spec fn step_view(r: RunStep) -> RunStepSpec {
    (run_view(r.0), action_view(r.1))
}

/// The view of an answer.
pub open spec fn reply_view(r: RunReply<String, CodexSessionId>) -> RunReply<Seq<char>, Seq<char>> {
    match r {
        RunReply::Done => RunReply::Done,
        RunReply::Exit(code) => RunReply::Exit(code),
        RunReply::Session(id) => RunReply::Session(session_view(id)),
        RunReply::Failed(t) => RunReply::Failed(t@),
    }
}

/// The answer is one that the phase waits for.
pub open spec fn fits<S, I>(phase: RunPhase, reply: RunReply<S, I>) -> bool {
    match phase {
        RunPhase::Resume | RunPhase::Fresh => reply is Exit || reply is Failed,
        RunPhase::LogSession | RunPhase::NewerSession => reply is Session || reply is Failed,
        RunPhase::Over => false,
        _ => reply is Done || reply is Failed,
    }
}

/// A run that resumes has a session to resume.
pub open spec fn consistent<S, I>(s: Running<S, I>) -> bool {
    s.phase == RunPhase::Resume ==> s.resumes is Some
}

/// The run ends.
pub open spec fn ended(s: RunSpec, error: Option<Seq<char>>) -> RunStepSpec {
    (Running { phase: RunPhase::Over, ..s }, RunAction::End(error))
}

/// The run goes on.
pub open spec fn onward(
    s: RunSpec,
    phase: RunPhase,
    action: RunAction<Seq<char>, Seq<char>>,
) -> RunStepSpec {
    (Running { phase, ..s }, action)
}

/// What follows an answer that is no failure.
pub open spec fn next_good(s: RunSpec, reply: RunReply<Seq<char>, Seq<char>>) -> RunStepSpec {
    match (s.phase, reply) {
        (RunPhase::Truncate, _) => onward(s, RunPhase::Marker, RunAction::WriteMarker),
        (RunPhase::Marker, _) => if s.resumes is Some {
            onward(s, RunPhase::Resume, RunAction::Run(CodexRunMode::Resume))
        } else {
            onward(s, RunPhase::Fresh, RunAction::Run(CodexRunMode::Fresh))
        },
        (RunPhase::Resume, RunReply::Exit(code)) => {
            let after = Running { exit_code: code, ..s };
            if status_of(code) == ReportedStatus::FailedRuntime {
                onward(
                    after,
                    RunPhase::LogFallback,
                    RunAction::AppendLog(
                        "orchd: resume failed for issue session "@ + s.resumes->0
                            + ", falling back to fresh exec"@,
                    ),
                )
            } else {
                onward(after, RunPhase::LogSession, RunAction::ReadLogSession)
            }
        },
        (RunPhase::LogFallback, _) => onward(
            s,
            RunPhase::Fresh,
            RunAction::Run(CodexRunMode::Fresh),
        ),
        (RunPhase::Fresh, RunReply::Exit(code)) => onward(
            Running { exit_code: code, ..s },
            RunPhase::LogSession,
            RunAction::ReadLogSession,
        ),
        (RunPhase::LogSession, RunReply::Session(id)) => onward(
            Running { session: id, ..s },
            RunPhase::NewerSession,
            RunAction::FindNewerSession,
        ),
        (RunPhase::NewerSession, RunReply::Session(id)) => onward(
            Running {
                session: if s.session is Some {
                    s.session
                } else {
                    id
                },
                ..s
            },
            RunPhase::Summary,
            RunAction::WriteSummary,
        ),
        (RunPhase::Summary, _) => onward(
            s,
            RunPhase::Completion,
            RunAction::WriteCompletion { status: status_of(s.exit_code), session: s.session },
        ),
        (RunPhase::Completion, _) => onward(
            s,
            RunPhase::Finalize,
            RunAction::Finalize {
                status: status_of(s.exit_code),
                exit_code: s.exit_code,
                session: s.session,
            },
        ),
        (RunPhase::Finalize, _) => onward(
            s,
            RunPhase::RemoveLock,
            RunAction::RemoveLock(s.lock_path),
        ),
        _ => ended(s, s.error),
    }
}

/// What follows an answer. A failure ends the run, but for that of the finalizing, after which the lock
/// is still removed, and that of the removal, which the log tells.
pub open spec fn next(s: RunSpec, reply: RunReply<Seq<char>, Seq<char>>) -> RunStepSpec {
    match reply {
        RunReply::Failed(e) => match s.phase {
            RunPhase::Finalize => onward(
                Running { error: Some(e), ..s },
                RunPhase::RemoveLock,
                RunAction::RemoveLock(s.lock_path),
            ),
            RunPhase::RemoveLock => onward(
                s,
                RunPhase::LogCleanup,
                RunAction::AppendLog(
                    "orchd: lock cleanup failed for "@ + s.lock_path + ": "@ + e,
                ),
            ),
            _ => ended(s, Some(e)),
        },
        _ => next_good(s, reply),
    }
}

/// A session, once more.
fn copied(id: &Option<CodexSessionId>) -> (r: Option<CodexSessionId>)
    ensures
        session_view(r) == session_view(*id),
{
    match id {
        Some(x) => Some(CodexSessionId(x.0.clone())),
        None => None,
    }
}

/// The run in another phase.
fn in_phase(s: DispatchRun, phase: RunPhase) -> (r: DispatchRun)
    ensures
        run_view(r) == (Running { phase, ..run_view(s) }),
        r.resumes == s.resumes,
{
    let mut t = s;
    t.phase = phase;
    t
}

/// Takes up a run, which resumes the session where there is one.
pub fn begin_run(lock_path: &str, resumes: Option<CodexSessionId>) -> (r: RunStep)
    ensures
        step_view(r) == (
            Running {
                phase: RunPhase::Truncate,
                lock_path: lock_path@,
                resumes: session_view(resumes),
                exit_code: 0i64,
                session: None::<Seq<char>>,
                error: None::<Seq<char>>,
            },
            RunAction::<Seq<char>, Seq<char>>::TruncateLog,
        ),
        consistent(r.0),
{
    (
        Running {
            phase: RunPhase::Truncate,
            lock_path: lock_path.to_owned(),
            resumes,
            exit_code: 0,
            session: None,
            error: None,
        },
        RunAction::TruncateLog,
    )
}

/// Takes a failure and tells what is done next.
fn after_failure(s: DispatchRun, e: String) -> (r: RunStep)
    ensures
        step_view(r) == next(run_view(s), RunReply::Failed(e@)),
        consistent(r.0),
{
    match s.phase {
        RunPhase::Finalize => {
            let lock = s.lock_path.clone();
            let mut t = in_phase(s, RunPhase::RemoveLock);
            t.error = Some(e);
            (t, RunAction::RemoveLock(lock))
        },
        RunPhase::RemoveLock => {
            let line = lock_cleanup_failure(s.lock_path.as_str(), e.as_str());
            (in_phase(s, RunPhase::LogCleanup), RunAction::AppendLog(line))
        },
        _ => (in_phase(s, RunPhase::Over), RunAction::End(Some(e))),
    }
}

/// Takes an answer and tells what is done next.
pub fn run_dispatch_command(s: DispatchRun, reply: RunReply<String, CodexSessionId>) -> (r: RunStep)
    requires
        fits(s.phase, reply),
        consistent(s),
    ensures
        step_view(r) == next(run_view(s), reply_view(reply)),
        consistent(r.0),
{
    match reply {
        RunReply::Failed(e) => after_failure(s, e),
        RunReply::Exit(code) => {
            let line = match (s.phase, &s.resumes) {
                (RunPhase::Resume, Some(id)) => resume_fallback(id, code),
                _ => None,
            };
            let mut t = s;
            t.exit_code = code;
            match line {
                Some(text) => (in_phase(t, RunPhase::LogFallback), RunAction::AppendLog(text)),
                None => (in_phase(t, RunPhase::LogSession), RunAction::ReadLogSession),
            }
        },
        RunReply::Session(id) => match s.phase {
            RunPhase::LogSession => {
                let mut t = s;
                t.session = id;
                (in_phase(t, RunPhase::NewerSession), RunAction::FindNewerSession)
            },
            _ => {
                let mut t = s;
                if t.session.is_none() {
                    t.session = id;
                }
                (in_phase(t, RunPhase::Summary), RunAction::WriteSummary)
            },
        },
        RunReply::Done => match s.phase {
            RunPhase::Truncate => (in_phase(s, RunPhase::Marker), RunAction::WriteMarker),
            RunPhase::Marker => if s.resumes.is_some() {
                (in_phase(s, RunPhase::Resume), RunAction::Run(CodexRunMode::Resume))
            } else {
                (in_phase(s, RunPhase::Fresh), RunAction::Run(CodexRunMode::Fresh))
            },
            RunPhase::LogFallback => (
                in_phase(s, RunPhase::Fresh),
                RunAction::Run(CodexRunMode::Fresh),
            ),
            RunPhase::Summary => {
                let status = codex_status_for_exit_code(s.exit_code);
                let session = copied(&s.session);
                (
                    in_phase(s, RunPhase::Completion),
                    RunAction::WriteCompletion { status, session },
                )
            },
            RunPhase::Completion => {
                let status = codex_status_for_exit_code(s.exit_code);
                let exit_code: i64 = s.exit_code;
                let session = copied(&s.session);
                (
                    in_phase(s, RunPhase::Finalize),
                    RunAction::Finalize { status, exit_code, session },
                )
            },
            RunPhase::Finalize => {
                let lock = s.lock_path.clone();
                (in_phase(s, RunPhase::RemoveLock), RunAction::RemoveLock(lock))
            },
            _ => {
                let error = crate::text::clone_opt(&s.error);
                (in_phase(s, RunPhase::Over), RunAction::End(error))
            },
        },
    }
}

/// How far a run is from its end.
pub open spec fn distance(phase: RunPhase) -> nat {
    match phase {
        RunPhase::Truncate => 12,
        RunPhase::Marker => 11,
        RunPhase::Resume => 10,
        RunPhase::LogFallback => 9,
        RunPhase::Fresh => 8,
        RunPhase::LogSession => 7,
        RunPhase::NewerSession => 6,
        RunPhase::Summary => 5,
        RunPhase::Completion => 4,
        RunPhase::Finalize => 3,
        RunPhase::RemoveLock => 2,
        RunPhase::LogCleanup => 1,
        RunPhase::Over => 0,
    }
}

/// A run ends, and the model is run at most twice: a session that there is is resumed first, and only
/// one that failed, and did not run out of time, is followed by a fresh run.
pub proof fn law_sessions_are_resumed_first(s: RunSpec, reply: RunReply<Seq<char>, Seq<char>>)
    requires
        fits(s.phase, reply),
        consistent(s),
    ensures
        ({
            let n = next(s, reply);
            &&& distance(n.0.phase) < distance(s.phase)
            &&& consistent(n.0)
            &&& n.0.phase == RunPhase::Over <==> n.1 is End
            &&& n.1 == RunAction::<Seq<char>, Seq<char>>::Run(CodexRunMode::Resume) ==> s.phase
                == RunPhase::Marker && s.resumes is Some
            &&& n.1 == RunAction::<Seq<char>, Seq<char>>::Run(CodexRunMode::Fresh) ==> (s.phase
                == RunPhase::Marker && s.resumes is None) || s.phase == RunPhase::LogFallback
            &&& n.0.phase == RunPhase::LogFallback ==> s.phase == RunPhase::Resume && (
            reply matches RunReply::Exit(code) && code != 0 && code != 124)
        }),
{
}

/// Whatever came of the finalizing, the lock is removed after it, and its error is that of the run; the
/// one exception is a log that could not be told of a lock that stayed.
pub proof fn law_finalized_runs_release_their_lock(
    s: RunSpec,
    reply: RunReply<Seq<char>, Seq<char>>,
    removal: RunReply<Seq<char>, Seq<char>>,
)
    requires
        s.phase == RunPhase::Finalize,
        fits(s.phase, reply),
        fits(RunPhase::RemoveLock, removal),
        s.error is None,
    ensures
        next(s, reply).1 == RunAction::<Seq<char>, Seq<char>>::RemoveLock(s.lock_path),
        next(s, reply).0.error == (match reply {
            RunReply::Failed(e) => Some(e),
            _ => None,
        }),
        removal is Done ==> next(next(s, reply).0, removal).1 == RunAction::<
            Seq<char>,
            Seq<char>,
        >::End(next(s, reply).0.error),
        removal is Failed ==> next(next(s, reply).0, removal).0.phase == RunPhase::LogCleanup && next(
            next(next(s, reply).0, removal).0,
            RunReply::Done,
        ).1 == RunAction::<Seq<char>, Seq<char>>::End(next(s, reply).0.error),
{
}

/// A run goes its way: its log is emptied, the session that there is is resumed and any other begun, the
/// session is looked for in the log and then among the files, the summary and the completion are written
/// and the dispatch is finalized, with the status of the exit code: none for a success, a hundred and
/// twenty-four for a timeout, any other for a failure.
pub proof fn law_runs_go_their_way(
    s: RunSpec,
    code: i64,
    id: Option<Seq<char>>,
)
    requires
        consistent(s),
    ensures
        ({
            let status = if s.exit_code == 0 {
                ReportedStatus::Completed
            } else if s.exit_code == 124 {
                ReportedStatus::TimedOut
            } else {
                ReportedStatus::FailedRuntime
            };
            &&& s.phase == RunPhase::Truncate ==> next(s, RunReply::Done).1 is WriteMarker
            &&& s.phase == RunPhase::Marker ==> next(s, RunReply::Done).1 == RunAction::<
                Seq<char>,
                Seq<char>,
            >::Run(
                if s.resumes is Some {
                    CodexRunMode::Resume
                } else {
                    CodexRunMode::Fresh
                },
            )
            &&& s.phase == RunPhase::Resume ==> next(s, RunReply::Exit(code)).0.exit_code == code && (
            if code == 0 || code == 124 {
                next(s, RunReply::Exit(code)).1 is ReadLogSession
            } else {
                next(s, RunReply::Exit(code)).1 is AppendLog && next(
                    next(s, RunReply::Exit(code)).0,
                    RunReply::Done,
                ).1 == RunAction::<Seq<char>, Seq<char>>::Run(CodexRunMode::Fresh)
            })
            &&& s.phase == RunPhase::Fresh ==> next(s, RunReply::Exit(code)).0.exit_code == code && next(
                s,
                RunReply::Exit(code),
            ).1 is ReadLogSession
            &&& s.phase == RunPhase::LogSession ==> next(s, RunReply::Session(id)).0.session == id
                && next(s, RunReply::Session(id)).1 is FindNewerSession
            &&& s.phase == RunPhase::NewerSession ==> next(s, RunReply::Session(id)).0.session == (
            if s.session is Some {
                s.session
            } else {
                id
            }) && next(s, RunReply::Session(id)).1 is WriteSummary
            &&& s.phase == RunPhase::Summary ==> next(s, RunReply::Done).1 == (RunAction::<
                Seq<char>,
                Seq<char>,
            >::WriteCompletion { status, session: s.session })
            &&& s.phase == RunPhase::Completion ==> next(s, RunReply::Done).1 == (RunAction::<
                Seq<char>,
                Seq<char>,
            >::Finalize { status, exit_code: s.exit_code, session: s.session })
        }),
{
}

/// A failure before the finalizing ends the run with its error, and nothing is finalized.
pub proof fn law_failed_steps_end_the_run(s: RunSpec, e: Seq<char>)
    requires
        s.phase != RunPhase::Finalize,
        s.phase != RunPhase::RemoveLock,
        s.phase != RunPhase::Over,
    ensures
        next(s, RunReply::Failed(e)).1 == RunAction::<Seq<char>, Seq<char>>::End(Some(e)),
{
}

/// What is asked for is what is waited for, and nothing after the end; what the run was given stays.
pub proof fn law_runs_wait_for_what_they_ask(s: RunSpec, reply: RunReply<Seq<char>, Seq<char>>)
    requires
        consistent(s),
        fits(s.phase, reply),
    ensures
        ({
            let n = next(s, reply);
            let p = n.0.phase;
            &&& n.1 is WriteMarker <==> p == RunPhase::Marker
            &&& n.1 == RunAction::<Seq<char>, Seq<char>>::Run(CodexRunMode::Resume) <==> p
                == RunPhase::Resume
            &&& n.1 == RunAction::<Seq<char>, Seq<char>>::Run(CodexRunMode::Fresh) <==> p
                == RunPhase::Fresh
            &&& n.1 is AppendLog <==> p == RunPhase::LogFallback || p == RunPhase::LogCleanup
            &&& p == RunPhase::LogFallback ==> s.phase == RunPhase::Resume
            &&& p == RunPhase::LogCleanup ==> s.phase == RunPhase::RemoveLock
            &&& n.1 is ReadLogSession <==> p == RunPhase::LogSession
            &&& n.1 is FindNewerSession <==> p == RunPhase::NewerSession
            &&& n.1 is WriteSummary <==> p == RunPhase::Summary
            &&& n.1 is WriteCompletion <==> p == RunPhase::Completion
            &&& n.1 is Finalize <==> p == RunPhase::Finalize
            &&& n.1 is RemoveLock <==> p == RunPhase::RemoveLock
            &&& n.1 is End <==> p == RunPhase::Over
            &&& n.0.resumes == s.resumes
            &&& n.0.lock_path == s.lock_path
        }),
{
}

/// The lock is removed after the finalizing, whether that succeeded or not, and the error of the
/// finalizing is what the run ends with.
pub proof fn law_locks_are_removed_after_finalizing(s: RunSpec, e: Seq<char>)
    ensures
        s.phase == RunPhase::Finalize ==> {
            &&& next(s, RunReply::Done).1 == RunAction::<Seq<char>, Seq<char>>::RemoveLock(s.lock_path)
            &&& next(s, RunReply::Failed(e)).1 == RunAction::<Seq<char>, Seq<char>>::RemoveLock(
                s.lock_path,
            )
            &&& next(s, RunReply::Failed(e)).0.error == Some(e)
            &&& next(s, RunReply::Done).0.error == s.error
        },
        s.phase == RunPhase::RemoveLock ==> next(s, RunReply::Done).1 == RunAction::<
            Seq<char>,
            Seq<char>,
        >::End(s.error) && next(s, RunReply::Failed(e)).1 is AppendLog,
        s.phase == RunPhase::LogCleanup ==> next(s, RunReply::Done).1 == RunAction::<
            Seq<char>,
            Seq<char>,
        >::End(s.error),
{
}

} // verus!
