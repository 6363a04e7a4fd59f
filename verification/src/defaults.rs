//! The settings that a configuration need not give.

use crate::config_load::DispatchNotificationPhase;
use vstd::prelude::*;
use vstd::string::*;

verus! {

/// The program that runs a role.
pub fn default_codex_bin() -> (r: String)
    ensures
        r@ == "/home/main/forgejo-agent/bin/codex-role"@,
{
    "/home/main/forgejo-agent/bin/codex-role".to_owned()
}

/// The forge's command line tool.
pub fn default_forgejoctl_bin() -> (r: String)
    ensures
        r@ == "/home/main/.local/bin/forgejoctl"@,
{
    "/home/main/.local/bin/forgejoctl".to_owned()
}

/// The preamble of a first prompt.
pub fn default_preamble_file() -> (r: String)
    ensures
        r@ == "../prompts/orchd-preamble.md"@,
{
    "../prompts/orchd-preamble.md".to_owned()
}

/// The envelope of a first prompt.
pub fn default_fresh_envelope() -> (r: String)
    ensures
        r@ == "../prompts/orchd-envelope-fresh.md"@,
{
    "../prompts/orchd-envelope-fresh.md".to_owned()
}

/// The envelope of a later prompt.
pub fn default_followup_envelope() -> (r: String)
    ensures
        r@ == "../prompts/orchd-envelope-followup.md"@,
{
    "../prompts/orchd-envelope-followup.md".to_owned()
}

/// The part of a prompt that tells of the turn.
pub fn default_turn_context_file() -> (r: String)
    ensures
        r@ == "../prompts/orchd-turn-context.md"@,
{
    "../prompts/orchd-turn-context.md".to_owned()
}

/// The part of a first prompt that tells of the issue.
pub fn default_issue_fresh_file() -> (r: String)
    ensures
        r@ == "../prompts/orchd-issue-fresh.md"@,
{
    "../prompts/orchd-issue-fresh.md".to_owned()
}

/// The part of a later prompt that tells of the issue.
pub fn default_issue_followup_file() -> (r: String)
    ensures
        r@ == "../prompts/orchd-issue-followup.md"@,
{
    "../prompts/orchd-issue-followup.md".to_owned()
}

/// The remote of a repository.
pub fn default_git_remote() -> (r: String)
    ensures
        r@ == "origin"@,
{
    "origin".to_owned()
}

/// The branch that changes go to.
pub fn default_git_base() -> (r: String)
    ensures
        r@ == "main"@,
{
    "main".to_owned()
}

/// The name under which notices are sent.
pub fn default_notify_app_name() -> (r: String)
    ensures
        r@ == "orchd"@,
{
    "orchd".to_owned()
}

/// The login whose replies are not announced.
pub fn default_watch_login() -> (r: String)
    ensures
        r@ == "main"@,
{
    "main".to_owned()
}

/// The program that sends notices.
pub fn default_notify_send_bin() -> (r: String)
    ensures
        r@ == "/usr/bin/notify-send"@,
{
    "/usr/bin/notify-send".to_owned()
}

/// How often notices are looked for, in seconds.
pub fn default_notify_poll_sec() -> (r: u64)
    ensures
        r == 10,
{
    10
}

/// How long a run may take, in seconds.
pub fn default_timeout_sec() -> (r: u64)
    ensures
        r == 3600,
{
    3600
}

/// How long a chain of triggers may be.
pub fn default_trigger_depth() -> (r: u32)
    ensures
        r == 6,
{
    6
}

/// How many triggers a window admits.
pub fn default_trigger_window_limit() -> (r: u32)
    ensures
        r == 12,
{
    12
}

/// How long a window of triggers is, in seconds.
pub fn default_trigger_window_sec() -> (r: u64)
    ensures
        r == 3600,
{
    3600
}

/// How long a trigger rests, in seconds.
pub fn default_trigger_cooldown_sec() -> (r: u64)
    ensures
        r == 60,
{
    60
}

/// A setting that is on.
pub fn default_true() -> (r: bool)
    ensures
        r,
{
    true
}

/// Whether the built-in triggers are on.
pub fn default_legacy_triggers() -> (r: bool)
    ensures
        r,
{
    true
}

/// Whether a trigger that leads back to its own role is refused.
pub fn default_trigger_deny_self_loop() -> (r: bool)
    ensures
        r,
{
    true
}

/// Whether ranks count.
pub fn default_rank_acl_enabled() -> (r: bool)
    ensures
        r,
{
    true
}

/// The phases that are announced: the ends of a dispatch.
pub fn default_notify_phases() -> (r: Vec<DispatchNotificationPhase>)
    ensures
        r@ == seq![
            DispatchNotificationPhase::Completed,
            DispatchNotificationPhase::Failed,
            DispatchNotificationPhase::Blocked,
        ],
{
    vec![
        DispatchNotificationPhase::Completed,
        DispatchNotificationPhase::Failed,
        DispatchNotificationPhase::Blocked,
    ]
}

} // verus!
