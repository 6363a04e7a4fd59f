//! The words of the orchestrator: event types, decisions and directives.

use crate::text::str_eq;
use vstd::prelude::*;

verus! {

pub const EVENT_ISSUES: &'static str = "issues";

pub const EVENT_ISSUE_COMMENT: &'static str = "issue_comment";

pub const EVENT_PUSH: &'static str = "push";

pub const EVENT_SCHEDULE: &'static str = "schedule";

pub const DECISION_ACCEPTED: &'static str = "accepted";

pub const DECISION_IGNORED: &'static str = "ignored";

pub const DIRECTIVE_DESIGN: &'static str = "design";

pub const DIRECTIVE_INVESTIGATE: &'static str = "investigate";

pub const DIRECTIVE_TRIAGE: &'static str = "triage";

pub const DIRECTIVE_IMPL: &'static str = "impl";

pub const DIRECTIVE_REPLY: &'static str = "reply";

pub const DIRECTIVE_AUDIT: &'static str = "audit";

pub const DIRECTIVE_AUDIT_FAILURE: &'static str = "audit-failure";

/// The directives that the orchestrator knows.
pub open spec fn known_directive(d: Seq<char>) -> bool {
    ||| d == "design"@
    ||| d == "investigate"@
    ||| d == "triage"@
    ||| d == "impl"@
    ||| d == "reply"@
    ||| d == "audit"@
    ||| d == "audit-failure"@
}

/// Tells whether the orchestrator knows the directive.
pub fn directive_is_known(directive: &str) -> (r: bool)
    ensures
        r == known_directive(directive@),
{
    str_eq(directive, DIRECTIVE_DESIGN) || str_eq(directive, DIRECTIVE_INVESTIGATE) || str_eq(
        directive,
        DIRECTIVE_TRIAGE,
    ) || str_eq(directive, DIRECTIVE_IMPL) || str_eq(directive, DIRECTIVE_REPLY) || str_eq(
        directive,
        DIRECTIVE_AUDIT,
    ) || str_eq(directive, DIRECTIVE_AUDIT_FAILURE)
}

/// Tells whether the directive runs in a worktree of its own: only `impl` does.
pub fn directive_uses_worktree(directive: &str) -> (r: bool)
    ensures
        r == (directive@ == "impl"@),
{
    str_eq(directive, DIRECTIVE_IMPL)
}

/// Tells whether dispatches of the directive run one at a time per repository.
pub fn directive_serializes_repo(directive: &str) -> (r: bool)
    ensures
        r == (directive@ == "impl"@),
{
    directive_uses_worktree(directive)
}

/// The orchestrator knows seven directives, and their words are these.
pub proof fn law_directives_are_known_by_their_words(d: Seq<char>)
    ensures
        known_directive(d) <==> d == DIRECTIVE_DESIGN@ || d == DIRECTIVE_INVESTIGATE@ || d
            == DIRECTIVE_TRIAGE@ || d == DIRECTIVE_IMPL@ || d == DIRECTIVE_REPLY@ || d == DIRECTIVE_AUDIT@
            || d == DIRECTIVE_AUDIT_FAILURE@,
        DIRECTIVE_DESIGN@ == "design"@,
        DIRECTIVE_INVESTIGATE@ == "investigate"@,
        DIRECTIVE_TRIAGE@ == "triage"@,
        DIRECTIVE_IMPL@ == "impl"@,
        DIRECTIVE_REPLY@ == "reply"@,
        DIRECTIVE_AUDIT@ == "audit"@,
        DIRECTIVE_AUDIT_FAILURE@ == "audit-failure"@,
        EVENT_ISSUES@ == "issues"@,
        EVENT_ISSUE_COMMENT@ == "issue_comment"@,
        EVENT_PUSH@ == "push"@,
        DECISION_ACCEPTED@ == "accepted"@,
        DECISION_IGNORED@ == "ignored"@,
{
}

} // verus!
