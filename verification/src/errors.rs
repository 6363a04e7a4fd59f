//! Why a dispatch was refused or failed.

use crate::text::{cat2, cat5, cat7, decimal, decimal_int, i64_text, u64_text};
use crate::types::OrchdRuntimeState;
use vstd::prelude::*;

verus! {

/// Why a dispatch was refused or failed.
pub enum DispatchError {
    ConfigNotLoaded,
    ActorNotAllowed(String),
    RankAclDenied(String),
    DirectiveNotConfigured(String),
    RoleNotConfigured(String),
    RepoBindingMissing(String),
    IssueDispatchInFlight { repo_full_name: String, issue_number: u64, dispatch_id: i64 },
    RepoImplDispatchInFlight { repo_full_name: String, dispatch_id: i64 },
    InvalidIssueRef(String),
    PromptTemplate(String),
    Io(String),
    Launch(String),
    IssueFetch(String),
    Db(String),
}

impl DispatchError {
    /// The code of the error.
    pub open spec fn code(self) -> Seq<char> {
        match self {
            DispatchError::ConfigNotLoaded => "dispatch_config_missing"@,
            DispatchError::ActorNotAllowed(_) => "actor_not_allowed"@,
            DispatchError::RankAclDenied(_) => "rank_acl_denied"@,
            DispatchError::DirectiveNotConfigured(_) => "directive_not_configured"@,
            DispatchError::RoleNotConfigured(_) => "role_not_configured"@,
            DispatchError::RepoBindingMissing(_) => "repo_binding_missing"@,
            DispatchError::IssueDispatchInFlight { .. } => "issue_dispatch_in_flight"@,
            DispatchError::RepoImplDispatchInFlight { .. } => "repo_impl_dispatch_in_flight"@,
            DispatchError::InvalidIssueRef(_) => "invalid_issue_ref"@,
            DispatchError::PromptTemplate(_) => "prompt_template_error"@,
            DispatchError::Io(_) => "io_failure"@,
            DispatchError::Launch(_) => "launch_failure"@,
            DispatchError::IssueFetch(_) => "issue_fetch_failure"@,
            DispatchError::Db(_) => "db_failure"@,
        }
    }

    /// The text of the error.
    pub open spec fn says(self) -> Seq<char> {
        match self {
            DispatchError::ConfigNotLoaded => "dispatch config not loaded"@,
            DispatchError::ActorNotAllowed(x) => "actor not allowed: "@ + x@,
            DispatchError::RankAclDenied(x) => "rank ACL denied dispatch: "@ + x@,
            DispatchError::DirectiveNotConfigured(x) => "directive not configured: "@ + x@,
            DispatchError::RoleNotConfigured(x) => "role not configured: "@ + x@,
            DispatchError::RepoBindingMissing(
                x,
            ) => "repo workspace binding is required for impl dispatch: "@ + x@,
            DispatchError::IssueDispatchInFlight {
                repo_full_name,
                issue_number,
                dispatch_id,
            } => "issue dispatch already in flight for "@ + repo_full_name@ + "#"@ + decimal(
                issue_number as nat,
            ) + " (dispatch "@ + decimal_int(dispatch_id as int) + ")"@,
            DispatchError::RepoImplDispatchInFlight {
                repo_full_name,
                dispatch_id,
            } => "repo impl dispatch already in flight for "@ + repo_full_name@ + " (dispatch "@
                + decimal_int(dispatch_id as int) + ")"@,
            DispatchError::InvalidIssueRef(x) => "invalid issue ref: "@ + x@,
            DispatchError::PromptTemplate(x) => "prompt template failure: "@ + x@,
            DispatchError::Io(x) => "io failure: "@ + x@,
            DispatchError::Launch(x) => "launch failure: "@ + x@,
            DispatchError::IssueFetch(x) => "issue fetch failure: "@ + x@,
            DispatchError::Db(x) => "db failure: "@ + x@,
        }
    }

    /// The code of the error.
    pub fn reason_code(&self) -> (r: &'static str)
        ensures
            r@ == self.code(),
    {
        match self {
            DispatchError::ConfigNotLoaded => "dispatch_config_missing",
            DispatchError::ActorNotAllowed(_) => "actor_not_allowed",
            DispatchError::RankAclDenied(_) => "rank_acl_denied",
            DispatchError::DirectiveNotConfigured(_) => "directive_not_configured",
            DispatchError::RoleNotConfigured(_) => "role_not_configured",
            DispatchError::RepoBindingMissing(_) => "repo_binding_missing",
            DispatchError::IssueDispatchInFlight { .. } => "issue_dispatch_in_flight",
            DispatchError::RepoImplDispatchInFlight { .. } => "repo_impl_dispatch_in_flight",
            DispatchError::InvalidIssueRef(_) => "invalid_issue_ref",
            DispatchError::PromptTemplate(_) => "prompt_template_error",
            DispatchError::Io(_) => "io_failure",
            DispatchError::Launch(_) => "launch_failure",
            DispatchError::IssueFetch(_) => "issue_fetch_failure",
            DispatchError::Db(_) => "db_failure",
        }
    }

    /// The text of the error.
    pub fn message(&self) -> (r: String)
        ensures
            r@ == self.says(),
    {
        match self {
            DispatchError::ConfigNotLoaded => "dispatch config not loaded".to_owned(),
            DispatchError::ActorNotAllowed(x) => cat2("actor not allowed: ", x.as_str()),
            DispatchError::RankAclDenied(x) => cat2("rank ACL denied dispatch: ", x.as_str()),
            DispatchError::DirectiveNotConfigured(x) => cat2(
                "directive not configured: ",
                x.as_str(),
            ),
            DispatchError::RoleNotConfigured(x) => cat2("role not configured: ", x.as_str()),
            DispatchError::RepoBindingMissing(x) => cat2(
                "repo workspace binding is required for impl dispatch: ",
                x.as_str(),
            ),
            DispatchError::IssueDispatchInFlight {
                repo_full_name,
                issue_number,
                dispatch_id,
            } => cat7(
                "issue dispatch already in flight for ",
                repo_full_name.as_str(),
                "#",
                u64_text(*issue_number).as_str(),
                " (dispatch ",
                i64_text(*dispatch_id).as_str(),
                ")",
            ),
            DispatchError::RepoImplDispatchInFlight { repo_full_name, dispatch_id } => cat5(
                "repo impl dispatch already in flight for ",
                repo_full_name.as_str(),
                " (dispatch ",
                i64_text(*dispatch_id).as_str(),
                ")",
            ),
            DispatchError::InvalidIssueRef(x) => cat2("invalid issue ref: ", x.as_str()),
            DispatchError::PromptTemplate(x) => cat2("prompt template failure: ", x.as_str()),
            DispatchError::Io(x) => cat2("io failure: ", x.as_str()),
            DispatchError::Launch(x) => cat2("launch failure: ", x.as_str()),
            DispatchError::IssueFetch(x) => cat2("issue fetch failure: ", x.as_str()),
            DispatchError::Db(x) => cat2("db failure: ", x.as_str()),
        }
    }
}

/// What the issue shows after the error: still running, queued behind another dispatch, blocked on
/// the config or the request, or failed.
pub open spec fn state_after(e: DispatchError) -> OrchdRuntimeState {
    match e {
        DispatchError::IssueDispatchInFlight { .. } => OrchdRuntimeState::Running,
        DispatchError::RepoImplDispatchInFlight { .. } => OrchdRuntimeState::Queued,
        DispatchError::ActorNotAllowed(_) => OrchdRuntimeState::Blocked,
        DispatchError::RankAclDenied(_) => OrchdRuntimeState::Blocked,
        DispatchError::DirectiveNotConfigured(_) => OrchdRuntimeState::Blocked,
        DispatchError::RoleNotConfigured(_) => OrchdRuntimeState::Blocked,
        DispatchError::RepoBindingMissing(_) => OrchdRuntimeState::Blocked,
        DispatchError::InvalidIssueRef(_) => OrchdRuntimeState::Blocked,
        _ => OrchdRuntimeState::Failed,
    }
}

/// What the issue shows after the error.
pub fn runtime_state_for_dispatch_error(error: &DispatchError) -> (r: OrchdRuntimeState)
    ensures
        r == state_after(*error),
{
    match error {
        DispatchError::IssueDispatchInFlight { .. } => OrchdRuntimeState::Running,
        DispatchError::RepoImplDispatchInFlight { .. } => OrchdRuntimeState::Queued,
        DispatchError::ActorNotAllowed(_) => OrchdRuntimeState::Blocked,
        DispatchError::RankAclDenied(_) => OrchdRuntimeState::Blocked,
        DispatchError::DirectiveNotConfigured(_) => OrchdRuntimeState::Blocked,
        DispatchError::RoleNotConfigured(_) => OrchdRuntimeState::Blocked,
        DispatchError::RepoBindingMissing(_) => OrchdRuntimeState::Blocked,
        DispatchError::InvalidIssueRef(_) => OrchdRuntimeState::Blocked,
        _ => OrchdRuntimeState::Failed,
    }
}

/// What an error says of the issue: it still runs where its own dispatch is under way, waits where one of
/// the repository is, is blocked where the request or the config has to change, and has failed otherwise.
pub proof fn law_errors_show_what_has_to_change(e: DispatchError)
    ensures
        state_after(e) == OrchdRuntimeState::Running <==> e.code() == "issue_dispatch_in_flight"@,
        state_after(e) == OrchdRuntimeState::Queued <==> e.code() == "repo_impl_dispatch_in_flight"@,
        state_after(e) == OrchdRuntimeState::Blocked <==> (e is ActorNotAllowed || e is RankAclDenied
            || e is DirectiveNotConfigured || e is RoleNotConfigured || e is RepoBindingMissing
            || e is InvalidIssueRef),
        state_after(e) == OrchdRuntimeState::Failed <==> (e is ConfigNotLoaded || e is PromptTemplate
            || e is Io || e is Launch || e is IssueFetch || e is Db),
{
    lemma_error_codes(e);
}

/// The codes of the two kinds of a dispatch that is under way are theirs alone.
proof fn lemma_error_codes(e: DispatchError)
    ensures
        e.code() == "issue_dispatch_in_flight"@ <==> e is IssueDispatchInFlight,
        e.code() == "repo_impl_dispatch_in_flight"@ <==> e is RepoImplDispatchInFlight,
{
    reveal_strlit("dispatch_config_missing");
    reveal_strlit("actor_not_allowed");
    reveal_strlit("rank_acl_denied");
    reveal_strlit("directive_not_configured");
    reveal_strlit("role_not_configured");
    reveal_strlit("repo_binding_missing");
    reveal_strlit("issue_dispatch_in_flight");
    reveal_strlit("repo_impl_dispatch_in_flight");
    reveal_strlit("invalid_issue_ref");
    reveal_strlit("prompt_template_error");
    reveal_strlit("io_failure");
    reveal_strlit("launch_failure");
    reveal_strlit("issue_fetch_failure");
    reveal_strlit("db_failure");
    let a = "issue_dispatch_in_flight"@;
    assert(a[0] == 'i');
    assert("directive_not_configured"@[0] == 'd');
    assert(a.len() == 24);
    assert("repo_impl_dispatch_in_flight"@.len() == 28);
}

} // verus!
