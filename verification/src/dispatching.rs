//! One dispatch from its decision to its run: the steps in their order, and what a failed one leaves
//! behind.

use crate::admission::{fault, Fault};
use crate::errors::DispatchError;
use vstd::prelude::*;
use vstd::string::*;

verus! {

/// The step that a dispatch is at.
#[derive(Clone, Copy, PartialEq, Eq, Structural, Debug)]
pub enum IssuePhase {
    Plan,
    Materialize,
    Launch,
    MarkRunning,
    Over,
}

/// What is done next. At the end, a dispatch that was planned and could not be launched is entered as
/// failed to start.
pub enum IssueAction<E> {
    Plan,
    Materialize,
    Launch,
    MarkRunning,
    End { fail_start: bool, error: Option<E> },
}

/// The view of what is done next.
pub open spec fn action_view(a: IssueAction<DispatchError>) -> IssueAction<Fault> {
    match a {
        IssueAction::Plan => IssueAction::Plan,
        IssueAction::Materialize => IssueAction::Materialize,
        IssueAction::Launch => IssueAction::Launch,
        IssueAction::MarkRunning => IssueAction::MarkRunning,
        IssueAction::End { fail_start, error } => IssueAction::End {
            fail_start,
            error: match error {
                Some(e) => Some(fault(e)),
                None => None,
            },
        },
    }
}

/// What follows a step: the next one where it succeeded, the end where it failed.
pub open spec fn next(phase: IssuePhase, failed: Option<Fault>) -> (IssuePhase, IssueAction<Fault>) {
    match failed {
        Some(e) => (
            IssuePhase::Over,
            IssueAction::End {
                fail_start: phase == IssuePhase::Materialize || phase == IssuePhase::Launch,
                error: Some(e),
            },
        ),
        None => match phase {
            IssuePhase::Plan => (IssuePhase::Materialize, IssueAction::Materialize),
            IssuePhase::Materialize => (IssuePhase::Launch, IssueAction::Launch),
            IssuePhase::Launch => (IssuePhase::MarkRunning, IssueAction::MarkRunning),
            _ => (IssuePhase::Over, IssueAction::End { fail_start: false, error: None }),
        },
    }
}

/// Takes up a dispatch, where there is a configuration.
pub fn begin_dispatch_issue(configured: bool) -> (r: (IssuePhase, IssueAction<DispatchError>))
    ensures
        (r.0, action_view(r.1)) == (if configured {
            (IssuePhase::Plan, IssueAction::<Fault>::Plan)
        } else {
            (
                IssuePhase::Over,
                IssueAction::<Fault>::End {
                    fail_start: false,
                    error: Some(fault(DispatchError::ConfigNotLoaded)),
                },
            )
        }),
{
    if configured {
        (IssuePhase::Plan, IssueAction::Plan)
    } else {
        (
            IssuePhase::Over,
            IssueAction::End { fail_start: false, error: Some(DispatchError::ConfigNotLoaded) },
        )
    }
}

/// Takes a dispatch on after a step.
pub fn dispatch_issue(phase: IssuePhase, failed: Option<DispatchError>) -> (r: (
    IssuePhase,
    IssueAction<DispatchError>,
))
    requires
        phase != IssuePhase::Over,
    ensures
        (r.0, action_view(r.1)) == next(
            phase,
            match failed {
                Some(e) => Some(fault(e)),
                None => None,
            },
        ),
{
    match failed {
        Some(e) => {
            let fail_start = phase == IssuePhase::Materialize || phase == IssuePhase::Launch;
            (IssuePhase::Over, IssueAction::End { fail_start, error: Some(e) })
        },
        None => match phase {
            IssuePhase::Plan => (IssuePhase::Materialize, IssueAction::Materialize),
            IssuePhase::Materialize => (IssuePhase::Launch, IssueAction::Launch),
            IssuePhase::Launch => (IssuePhase::MarkRunning, IssueAction::MarkRunning),
            _ => (IssuePhase::Over, IssueAction::End { fail_start: false, error: None }),
        },
    }
}

/// A dispatch is entered as running only after it was planned, its files were written and its run was
/// launched; and one whose files or launch failed is entered as failed to start.
pub proof fn law_runs_are_launched_before_they_run(phase: IssuePhase, failed: Option<Fault>)
    requires
        phase != IssuePhase::Over,
    ensures
        next(phase, failed).0 == IssuePhase::MarkRunning ==> phase == IssuePhase::Launch && failed
            is None,
        next(phase, failed).0 == IssuePhase::Launch ==> phase == IssuePhase::Materialize && failed
            is None,
        next(phase, failed).0 == IssuePhase::Materialize ==> phase == IssuePhase::Plan && failed is None,
        next(phase, failed).1 matches IssueAction::End { fail_start, error } ==> fail_start == (failed
            is Some && (phase == IssuePhase::Materialize || phase == IssuePhase::Launch)) && error
            == failed,
{
}

/// A step that succeeded leads to the next: the plan to its files, these to the launch, that to the entry
/// that it runs, and that to the end.
pub proof fn law_dispatches_go_their_way()
    ensures
        next(IssuePhase::Plan, None) == (IssuePhase::Materialize, IssueAction::<Fault>::Materialize),
        next(IssuePhase::Materialize, None) == (IssuePhase::Launch, IssueAction::<Fault>::Launch),
        next(IssuePhase::Launch, None) == (IssuePhase::MarkRunning, IssueAction::<Fault>::MarkRunning),
        next(IssuePhase::MarkRunning, None) == (
            IssuePhase::Over,
            IssueAction::<Fault>::End { fail_start: false, error: None },
        ),
{
}

/// A step that failed ends the dispatch with its error.
pub proof fn law_failed_steps_end_the_dispatch(phase: IssuePhase, e: Fault)
    requires
        phase != IssuePhase::Over,
    ensures
        next(phase, Some(e)).0 == IssuePhase::Over,
        next(phase, Some(e)).1 == (IssueAction::<Fault>::End {
            fail_start: phase == IssuePhase::Materialize || phase == IssuePhase::Launch,
            error: Some(e),
        }),
{
}

} // verus!
