//! The command line: what it asks for, and the words for its choices.

use vstd::prelude::*;
use vstd::string::*;

verus! {

/// How much of a conversation a prompt carries on.
#[derive(Clone, Copy, PartialEq, Eq, Structural, Debug)]
pub enum PromptMode {
    Fresh,
    Followup,
}

impl PromptMode {
    /// The word for the mode.
    pub fn as_str(self) -> (r: &'static str)
        ensures
            r@ == (match self {
                PromptMode::Fresh => "fresh"@,
                PromptMode::Followup => "followup"@,
            }),
    {
        match self {
            PromptMode::Fresh => "fresh",
            PromptMode::Followup => "followup",
        }
    }
}

/// Whether decisions are carried out.
#[derive(Clone, Copy, PartialEq, Eq, Structural, Debug)]
pub enum DispatchMode {
    DryRun,
    Exec,
}

impl DispatchMode {
    /// The word for the mode.
    pub fn as_str(self) -> (r: &'static str)
        ensures
            r@ == (match self {
                DispatchMode::DryRun => "dry-run"@,
                DispatchMode::Exec => "exec"@,
            }),
    {
        match self {
            DispatchMode::DryRun => "dry-run",
            DispatchMode::Exec => "exec",
        }
    }
}

/// What runs a dispatch.
#[derive(Clone, Copy, PartialEq, Eq, Structural, Debug)]
pub enum DispatchBackend {
    Systemd,
    Local,
}

impl DispatchBackend {
    /// The word for the backend.
    pub fn as_str(self) -> (r: &'static str)
        ensures
            r@ == (match self {
                DispatchBackend::Systemd => "systemd"@,
                DispatchBackend::Local => "local"@,
            }),
    {
        match self {
            DispatchBackend::Systemd => "systemd",
            DispatchBackend::Local => "local",
        }
    }
}

/// What a prompt preview is asked for.
#[derive(Clone, Copy, PartialEq, Eq, Structural, Debug)]
pub enum PromptCommand {
    Preview,
}

/// What is asked for about the sessions of an issue.
#[derive(Clone, Copy, PartialEq, Eq, Structural, Debug)]
pub enum IssueCommand {
    Sessions,
    Resume,
}

/// What is asked for about the sessions of a timer.
#[derive(Clone, Copy, PartialEq, Eq, Structural, Debug)]
pub enum TimerCommand {
    Sessions,
    Resume,
}

/// What is asked for about roles.
#[derive(Clone, Copy, PartialEq, Eq, Structural, Debug)]
pub enum RoleCommand {
    List,
    Check,
    Add,
}

/// What is asked for about schedules.
#[derive(Clone, Copy, PartialEq, Eq, Structural, Debug)]
pub enum ScheduleCommand {
    List,
    Tick,
}

/// What is asked for about deploys.
#[derive(Clone, Copy, PartialEq, Eq, Structural, Debug)]
pub enum DeployCommand {
    Worker,
}

/// What is to be looked at.
#[derive(Clone, Copy, PartialEq, Eq, Structural, Debug)]
pub enum ObsCommand {
    Prompt(PromptCommand),
    Issue(IssueCommand),
    Timer(TimerCommand),
}

/// A command of the orchestrator.
#[derive(Clone, Copy, PartialEq, Eq, Structural, Debug)]
pub enum OrchdCommand {
    FinalizeDispatch,
    RunDispatch,
    SchemaContract,
    Obs(ObsCommand),
    Role(RoleCommand),
    Schedule(ScheduleCommand),
    Deploy(DeployCommand),
}

/// What the orchestrator does.
#[derive(Clone, Copy, PartialEq, Eq, Structural, Debug)]
pub enum EntryAction {
    Serve,
    FinalizeDispatch,
    RunDispatch,
    PrintSchemaContract,
    PreviewPrompt,
    ListIssueSessions,
    ResumeIssueSession,
    ListTimerSessions,
    ResumeTimerSession,
    ListRoles,
    CheckRoles,
    AddRole,
    ListSchedules,
    TickSchedules,
    WorkOffDeploys,
}

/// What is looked at.
pub open spec fn obs_action(command: ObsCommand) -> EntryAction {
    match command {
        ObsCommand::Prompt(PromptCommand::Preview) => EntryAction::PreviewPrompt,
        ObsCommand::Issue(IssueCommand::Sessions) => EntryAction::ListIssueSessions,
        ObsCommand::Issue(IssueCommand::Resume) => EntryAction::ResumeIssueSession,
        ObsCommand::Timer(TimerCommand::Sessions) => EntryAction::ListTimerSessions,
        ObsCommand::Timer(TimerCommand::Resume) => EntryAction::ResumeTimerSession,
    }
}

/// What the orchestrator does on a command.
pub open spec fn command_action(command: OrchdCommand) -> EntryAction {
    match command {
        OrchdCommand::FinalizeDispatch => EntryAction::FinalizeDispatch,
        OrchdCommand::RunDispatch => EntryAction::RunDispatch,
        OrchdCommand::SchemaContract => EntryAction::PrintSchemaContract,
        OrchdCommand::Obs(c) => obs_action(c),
        OrchdCommand::Role(RoleCommand::List) => EntryAction::ListRoles,
        OrchdCommand::Role(RoleCommand::Check) => EntryAction::CheckRoles,
        OrchdCommand::Role(RoleCommand::Add) => EntryAction::AddRole,
        OrchdCommand::Schedule(ScheduleCommand::List) => EntryAction::ListSchedules,
        OrchdCommand::Schedule(ScheduleCommand::Tick) => EntryAction::TickSchedules,
        OrchdCommand::Deploy(DeployCommand::Worker) => EntryAction::WorkOffDeploys,
    }
}

/// What is looked at.
fn run_obs_command(command: ObsCommand) -> (r: EntryAction)
    ensures
        r == obs_action(command),
{
    match command {
        ObsCommand::Prompt(PromptCommand::Preview) => EntryAction::PreviewPrompt,
        ObsCommand::Issue(IssueCommand::Sessions) => EntryAction::ListIssueSessions,
        ObsCommand::Issue(IssueCommand::Resume) => EntryAction::ResumeIssueSession,
        ObsCommand::Timer(TimerCommand::Sessions) => EntryAction::ListTimerSessions,
        ObsCommand::Timer(TimerCommand::Resume) => EntryAction::ResumeTimerSession,
    }
}

/// What the orchestrator does on a command.
pub fn run_command(command: OrchdCommand) -> (r: EntryAction)
    ensures
        r == command_action(command),
{
    match command {
        OrchdCommand::FinalizeDispatch => EntryAction::FinalizeDispatch,
        OrchdCommand::RunDispatch => EntryAction::RunDispatch,
        OrchdCommand::SchemaContract => EntryAction::PrintSchemaContract,
        OrchdCommand::Obs(c) => run_obs_command(c),
        OrchdCommand::Role(RoleCommand::List) => EntryAction::ListRoles,
        OrchdCommand::Role(RoleCommand::Check) => EntryAction::CheckRoles,
        OrchdCommand::Role(RoleCommand::Add) => EntryAction::AddRole,
        OrchdCommand::Schedule(ScheduleCommand::List) => EntryAction::ListSchedules,
        OrchdCommand::Schedule(ScheduleCommand::Tick) => EntryAction::TickSchedules,
        OrchdCommand::Deploy(DeployCommand::Worker) => EntryAction::WorkOffDeploys,
    }
}

/// What the orchestrator does: the command that it was given, or its service.
pub fn run_entry(command: Option<OrchdCommand>) -> (r: EntryAction)
    ensures
        r == (match command {
            Some(c) => command_action(c),
            None => EntryAction::Serve,
        }),
{
    match command {
        Some(c) => run_command(c),
        None => EntryAction::Serve,
    }
}

/// Every command has its own action, and none of them is the service.
pub proof fn law_commands_have_their_own_actions(a: OrchdCommand, b: OrchdCommand)
    ensures
        command_action(a) == command_action(b) ==> a == b,
        command_action(a) != EntryAction::Serve,
        command_action(OrchdCommand::FinalizeDispatch) == EntryAction::FinalizeDispatch,
        command_action(OrchdCommand::RunDispatch) == EntryAction::RunDispatch,
        command_action(OrchdCommand::SchemaContract) == EntryAction::PrintSchemaContract,
        command_action(OrchdCommand::Obs(ObsCommand::Prompt(PromptCommand::Preview)))
            == EntryAction::PreviewPrompt,
        command_action(OrchdCommand::Obs(ObsCommand::Issue(IssueCommand::Resume)))
            == EntryAction::ResumeIssueSession,
        command_action(OrchdCommand::Obs(ObsCommand::Issue(IssueCommand::Sessions)))
            == EntryAction::ListIssueSessions,
        command_action(OrchdCommand::Obs(ObsCommand::Timer(TimerCommand::Resume)))
            == EntryAction::ResumeTimerSession,
        command_action(OrchdCommand::Obs(ObsCommand::Timer(TimerCommand::Sessions)))
            == EntryAction::ListTimerSessions,
        command_action(OrchdCommand::Role(RoleCommand::List)) == EntryAction::ListRoles,
        command_action(OrchdCommand::Role(RoleCommand::Check)) == EntryAction::CheckRoles,
        command_action(OrchdCommand::Role(RoleCommand::Add)) == EntryAction::AddRole,
        command_action(OrchdCommand::Schedule(ScheduleCommand::List)) == EntryAction::ListSchedules,
        command_action(OrchdCommand::Schedule(ScheduleCommand::Tick)) == EntryAction::TickSchedules,
        command_action(OrchdCommand::Deploy(DeployCommand::Worker)) == EntryAction::WorkOffDeploys,
{
}

} // verus!
