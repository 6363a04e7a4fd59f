//! What follows the end of a dispatch: its final state, the landing of its branches and what is told
//! of them.

use crate::inquisition::InquisitionSpec;
use crate::landing::{
    end_view, input_view, EndSpec, LandingComment, LandingEnd, LandingInput, LandingOutcome,
};
use crate::ledger::{
    ended, law_dispatches_end_once, lemma_place_is, next_state, Book, DispatchEnd, Ledger,
};
use crate::lexicon::{
    directive_uses_worktree, DIRECTIVE_AUDIT, DIRECTIVE_AUDIT_FAILURE, DIRECTIVE_IMPL,
};
use crate::text::{
    blank, cat2, cat3, chars_of, clone_opt, has_part, is_digit, lines, lower, opt_view,
    parse_unsigned, push_char, str_blank, str_contains, str_eq, str_has_char, str_lines,
    str_lower, str_trim, texts, trim, unsigned_value, views,
};
use crate::types::{
    law_dispatch_states_read_back, DispatchState, IssueRef, OrchdRuntimeState, RepoRef,
};
use vstd::prelude::*;
use vstd::string::*;

verus! {

/// How the runner of a dispatch reports its end.
#[derive(Clone, Copy, PartialEq, Eq, Structural)]
pub enum ReportedStatus {
    Completed,
    TimedOut,
    FailedRuntime,
}

impl ReportedStatus {
    /// The word for the status.
    pub open spec fn word(self) -> Seq<char> {
        match self {
            ReportedStatus::Completed => "completed"@,
            ReportedStatus::TimedOut => "timed_out"@,
            ReportedStatus::FailedRuntime => "failed_runtime"@,
        }
    }

    /// The reason that goes with the status.
    pub open spec fn reason(self) -> Seq<char> {
        match self {
            ReportedStatus::Completed => "completed"@,
            ReportedStatus::TimedOut => "timeout"@,
            ReportedStatus::FailedRuntime => "codex_exit_nonzero"@,
        }
    }

    /// The word for the status.
    pub fn status_str(self) -> (r: &'static str)
        ensures
            r@ == self.word(),
    {
        match self {
            ReportedStatus::Completed => "completed",
            ReportedStatus::TimedOut => "timed_out",
            ReportedStatus::FailedRuntime => "failed_runtime",
        }
    }

    /// The reason that goes with the status.
    pub fn reason_code(self) -> (r: &'static str)
        ensures
            r@ == self.reason(),
    {
        match self {
            ReportedStatus::Completed => "completed",
            ReportedStatus::TimedOut => "timeout",
            ReportedStatus::FailedRuntime => "codex_exit_nonzero",
        }
    }
}

/// A status reads back from its word.
pub proof fn law_reported_status_reads_back(s: ReportedStatus)
    ensures
        reported(s.word()) == Some(s),
{
    reveal_strlit("completed");
    reveal_strlit("timed_out");
    reveal_strlit("failed_runtime");
    assert("completed"@.len() == 9);
    assert("timed_out"@.len() == 9);
    assert("completed"@[0] != "timed_out"@[0]);
    assert("failed_runtime"@.len() == 14);
}

/// What a reported status means.
pub open spec fn reported(status: Seq<char>) -> Option<ReportedStatus> {
    if status == "completed"@ {
        Some(ReportedStatus::Completed)
    } else if status == "timed_out"@ {
        Some(ReportedStatus::TimedOut)
    } else if status == "failed_runtime"@ || status == "stopped_no_final_answer"@ {
        Some(ReportedStatus::FailedRuntime)
    } else {
        None
    }
}

/// Reads a reported status.
pub fn parse_reported_status(status: &str) -> (r: Result<ReportedStatus, String>)
    ensures
        match reported(status@) {
            Some(s) => r == Ok::<ReportedStatus, String>(s),
            None => r matches Err(e) && e@ == "unsupported finalize status '"@ + status@ + "'"@,
        },
{
    if str_eq(status, "completed") {
        Ok(ReportedStatus::Completed)
    } else if str_eq(status, "timed_out") {
        Ok(ReportedStatus::TimedOut)
    } else if str_eq(status, "failed_runtime") || str_eq(status, "stopped_no_final_answer") {
        Ok(ReportedStatus::FailedRuntime)
    } else {
        Err(cat3("unsupported finalize status '", status, "'"))
    }
}

/// Lines as items of a list.
pub open spec fn bulleted(items: Seq<Seq<char>>) -> Seq<char>
    decreases items.len(),
{
    if items.len() == 0 {
        Seq::empty()
    } else {
        bulleted(items.drop_last()) + ("- "@ + items.last() + "\n"@)
    }
}

/// A section of the completion file; nothing where there are no lines.
pub open spec fn section(header: Seq<char>, items: Seq<Seq<char>>) -> Seq<char> {
    if items.len() == 0 {
        Seq::empty()
    } else {
        "\n---\n"@ + header + ":\n"@ + bulleted(items)
    }
}

/// What is appended to the completion file for a section.
pub fn append_completion_section(header: &str, items: &Vec<String>) -> (r: String)
    ensures
        r@ == section(header@, views(items@)),
{
    if items.len() == 0 {
        return String::new();
    }
    let head = cat3("\n---\n", header, ":\n");
    let mut body = String::new();
    let ghost all = views(items@);
    let mut i: usize = 0;
    proof {
        assert(all.take(0) =~= Seq::<Seq<char>>::empty());
    }
    while i < items.len()
        invariant
            i <= items@.len(),
            all == views(items@),
            body@ == bulleted(all.take(i as int)),
        decreases items.len() - i,
    {
        let line = cat3("- ", items[i].as_str(), "\n");
        body.append(line.as_str());
        proof {
            assert(all.take(i + 1).drop_last() =~= all.take(i as int));
            assert(all.take(i + 1).last() == all[i as int]);
        }
        i = i + 1;
    }
    proof {
        assert(all.take(i as int) =~= all);
    }
    cat2(head.as_str(), body.as_str())
}

/// The runs of decimal digits in `rest`, where `cur` has been read of one.
pub open spec fn runs_after(cur: Seq<char>, rest: Seq<char>) -> Seq<Seq<char>>
    decreases rest.len(),
{
    if rest.len() == 0 {
        if cur.len() == 0 {
            Seq::empty()
        } else {
            seq![cur]
        }
    } else if is_digit(rest[0]) {
        runs_after(cur.push(rest[0]), rest.drop_first())
    } else if cur.len() == 0 {
        runs_after(Seq::empty(), rest.drop_first())
    } else {
        seq![cur] + runs_after(Seq::empty(), rest.drop_first())
    }
}

/// The last of the numbers that is a percentage.
pub open spec fn last_percentage(runs: Seq<Seq<char>>) -> Option<nat>
    decreases runs.len(),
{
    if runs.len() == 0 {
        None
    } else if unsigned_value(runs.last(), 100) is Some {
        unsigned_value(runs.last(), 100)
    } else {
        last_percentage(runs.drop_last())
    }
}

/// The percentage that a line gives for the context: the line speaks of the context and holds a
/// percent sign.
pub open spec fn line_percentage(line: Seq<char>) -> Option<nat> {
    if has_part(lower(line), "context"@) && line.contains('%') {
        last_percentage(runs_after(Seq::empty(), line))
    } else {
        None
    }
}

/// The percentage that the last line which gives one gives.
pub open spec fn remaining(log: Seq<Seq<char>>) -> Option<nat>
    decreases log.len(),
{
    if log.len() == 0 {
        None
    } else if line_percentage(log.last()) is Some {
        line_percentage(log.last())
    } else {
        remaining(log.drop_last())
    }
}

/// The runs of decimal digits in a line.
fn digit_runs(line: &str) -> (r: Vec<String>)
    ensures
        views(r@) == runs_after(Seq::empty(), line@),
{
    let cs = chars_of(line);
    let mut out: Vec<String> = Vec::new();
    let mut cur = String::new();
    let ghost goal = runs_after(Seq::empty(), line@);
    let mut i: usize = 0;
    proof {
        assert(line@.skip(0) =~= line@);
        assert(views(out@) =~= Seq::<Seq<char>>::empty());
        assert(Seq::<Seq<char>>::empty() + goal =~= goal);
    }
    while i < cs.len()
        invariant
            i <= cs@.len(),
            cs@ == line@,
            views(out@) + runs_after(cur@, line@.skip(i as int)) == goal,
        decreases cs.len() - i,
    {
        let c = cs[i];
        let ghost rest = line@.skip(i as int);
        let ghost before = out@;
        let ghost was = cur@;
        proof {
            assert(rest[0] == c);
            assert(rest.drop_first() =~= line@.skip(i + 1));
        }
        if '0' <= c && c <= '9' {
            push_char(&mut cur, c);
        } else if cur.as_str().is_empty() {
            proof {
                assert(was =~= Seq::<char>::empty());
            }
        } else {
            out.push(cur);
            cur = String::new();
            proof {
                assert(views(out@) =~= views(before).push(was));
                let tail = runs_after(Seq::empty(), line@.skip(i + 1));
                assert(views(before).push(was) + tail =~= views(before) + (seq![was] + tail));
            }
        }
        i = i + 1;
    }
    let ghost before = out@;
    let ghost was = cur@;
    if !cur.as_str().is_empty() {
        out.push(cur);
        proof {
            assert(views(out@) =~= views(before) + seq![was]);
        }
    } else {
        proof {
            assert(views(before) + Seq::<Seq<char>>::empty() =~= views(before));
        }
    }
    out
}

/// The percentage that a line gives for the context.
fn percentage_of(line: &str) -> (r: Option<u8>)
    ensures
        (match r { Some(n) => Some(n as nat), None => None }) == line_percentage(line@),
        r matches Some(n) ==> n <= 100,
{
    let low = str_lower(line);
    if !str_contains(low.as_str(), "context") || !str_has_char(line, '%') {
        return None;
    }
    let runs = digit_runs(line);
    let ghost all = views(runs@);
    let mut i: usize = runs.len();
    proof {
        assert(all.take(i as int) =~= all);
    }
    while i > 0
        invariant
            i <= runs@.len(),
            all == views(runs@),
            last_percentage(all) == last_percentage(all.take(i as int)),
            line_percentage(line@) == last_percentage(all),
        decreases i,
    {
        proof {
            assert(all.take(i as int).last() == all[i - 1]);
            assert(all.take(i as int).drop_last() =~= all.take(i - 1));
        }
        if let Some(n) = parse_unsigned(runs[i - 1].as_str(), 100) {
            return Some(n as u8);
        }
        i = i - 1;
    }
    None
}

/// The percentage of the context that a log says is left: that of the last line which gives one.
pub fn parse_context_remaining_pct(raw: &str) -> (r: Option<u8>)
    ensures
        (match r { Some(n) => Some(n as nat), None => None }) == remaining(lines(raw@)),
        r matches Some(n) ==> n <= 100,
{
    let log = str_lines(raw);
    let ghost all = views(log@);
    let mut i: usize = log.len();
    proof {
        assert(all.take(i as int) =~= all);
    }
    while i > 0
        invariant
            i <= log@.len(),
            all == views(log@),
            remaining(all) == remaining(all.take(i as int)),
            all == lines(raw@),
        decreases i,
    {
        proof {
            assert(all.take(i as int).last() == all[i - 1]);
            assert(all.take(i as int).drop_last() =~= all.take(i - 1));
        }
        let found = percentage_of(log[i - 1].as_str());
        if found.is_some() {
            return found;
        }
        i = i - 1;
    }
    None
}

/// What happens to a dispatch.
#[derive(Clone, Copy, PartialEq, Eq, Structural)]
pub enum DispatchEventKind {
    MarkStarting,
    MarkRunning,
    FailStart,
    Complete,
    Timeout,
    FailRuntime,
    Block,
    HealStale,
}

impl DispatchEventKind {
    /// The word that the store keeps for what happens.
    pub open spec fn word(self) -> Seq<char> {
        match self {
            DispatchEventKind::MarkStarting => "mark_starting"@,
            DispatchEventKind::MarkRunning => "mark_running"@,
            DispatchEventKind::FailStart => "fail_start"@,
            DispatchEventKind::Complete => "complete"@,
            DispatchEventKind::Timeout => "timeout"@,
            DispatchEventKind::FailRuntime => "fail_runtime"@,
            DispatchEventKind::Block => "block"@,
            DispatchEventKind::HealStale => "heal_stale"@,
        }
    }

    /// The word that the store keeps for what happens.
    pub fn as_db_str(&self) -> (r: &'static str)
        ensures
            r@ == self.word(),
    {
        match self {
            DispatchEventKind::MarkStarting => "mark_starting",
            DispatchEventKind::MarkRunning => "mark_running",
            DispatchEventKind::FailStart => "fail_start",
            DispatchEventKind::Complete => "complete",
            DispatchEventKind::Timeout => "timeout",
            DispatchEventKind::FailRuntime => "fail_runtime",
            DispatchEventKind::Block => "block",
            DispatchEventKind::HealStale => "heal_stale",
        }
    }
}

/// The final state of a dispatch: what happens to it, how the issue shows it, and why.
pub struct TerminalStatusSpec {
    pub event_kind: DispatchEventKind,
    pub runtime_state: OrchdRuntimeState,
    pub state_literal: DispatchState,
    pub reason_code: String,
}

/// The final state of a dispatch: a completed one ends as its landing does.
pub open spec fn terminal(reported: ReportedStatus, fallback: Seq<char>, landing: EndSpec) -> (
    DispatchEventKind,
    OrchdRuntimeState,
    DispatchState,
    Seq<char>,
) {
    match reported {
        ReportedStatus::TimedOut => (
            DispatchEventKind::Timeout,
            OrchdRuntimeState::Failed,
            DispatchState::TimedOut,
            fallback,
        ),
        ReportedStatus::FailedRuntime => (
            DispatchEventKind::FailRuntime,
            OrchdRuntimeState::Failed,
            DispatchState::FailedRuntime,
            fallback,
        ),
        ReportedStatus::Completed => match landing {
            LandingEnd::Blocked { reason_code, .. } => (
                DispatchEventKind::Block,
                OrchdRuntimeState::Blocked,
                DispatchState::Blocked,
                reason_code,
            ),
            LandingEnd::Failure { reason_code, .. } => (
                DispatchEventKind::FailRuntime,
                OrchdRuntimeState::Failed,
                DispatchState::FailedRuntime,
                reason_code,
            ),
            _ => (
                DispatchEventKind::Complete,
                OrchdRuntimeState::Completed,
                DispatchState::Completed,
                fallback,
            ),
        },
    }
}

impl TerminalStatusSpec {
    /// The parts of a final state.
    pub open spec fn parts(self) -> (
        DispatchEventKind,
        OrchdRuntimeState,
        DispatchState,
        Seq<char>,
    ) {
        (self.event_kind, self.runtime_state, self.state_literal, self.reason_code@)
    }
}

/// The final state of a dispatch.
pub fn terminal_spec_from_outcome(
    reported: ReportedStatus,
    fallback_reason: &str,
    landing: &LandingOutcome,
) -> (r: TerminalStatusSpec)
    ensures
        r.parts() == terminal(reported, fallback_reason@, end_view(*landing)),
{
    match reported {
        ReportedStatus::TimedOut => TerminalStatusSpec {
            event_kind: DispatchEventKind::Timeout,
            runtime_state: OrchdRuntimeState::Failed,
            state_literal: DispatchState::TimedOut,
            reason_code: fallback_reason.to_owned(),
        },
        ReportedStatus::FailedRuntime => TerminalStatusSpec {
            event_kind: DispatchEventKind::FailRuntime,
            runtime_state: OrchdRuntimeState::Failed,
            state_literal: DispatchState::FailedRuntime,
            reason_code: fallback_reason.to_owned(),
        },
        ReportedStatus::Completed => match landing {
            LandingEnd::Blocked { reason_code, .. } => TerminalStatusSpec {
                event_kind: DispatchEventKind::Block,
                runtime_state: OrchdRuntimeState::Blocked,
                state_literal: DispatchState::Blocked,
                reason_code: reason_code.clone(),
            },
            LandingEnd::Failure { reason_code, .. } => TerminalStatusSpec {
                event_kind: DispatchEventKind::FailRuntime,
                runtime_state: OrchdRuntimeState::Failed,
                state_literal: DispatchState::FailedRuntime,
                reason_code: reason_code.clone(),
            },
            _ => TerminalStatusSpec {
                event_kind: DispatchEventKind::Complete,
                runtime_state: OrchdRuntimeState::Completed,
                state_literal: DispatchState::Completed,
                reason_code: fallback_reason.to_owned(),
            },
        },
    }
}

/// The state of work that an issue moves on to.
pub open spec fn work_target(directive: Seq<char>, state: DispatchState) -> Option<Seq<char>> {
    if directive == DIRECTIVE_IMPL@ && state == DispatchState::Completed {
        Some("done"@)
    } else {
        None
    }
}

/// Where the issue of a dispatch moves to: done, for a completed dispatch that changes code. Other
/// ends leave the issue where it is.
pub fn work_state_transition_target(directive: &str, state_literal: DispatchState) -> (r: Option<
    &'static str,
>)
    ensures
        (match r {
            Some(t) => Some(t@),
            None => None,
        }) == work_target(directive@, state_literal),
        r is Some <==> directive@ == DIRECTIVE_IMPL@ && state_literal == DispatchState::Completed,
        r matches Some(t) ==> t@ == "done"@,
{
    if directive_uses_worktree(directive) && state_literal == DispatchState::Completed {
        Some("done")
    } else {
        None
    }
}

/// What a finished dispatch is finalized with.
pub struct FinalizeDispatchArgs {
    pub db_path: String,
    pub dispatch_id: i64,
    pub status: String,
    pub reason_code: String,
    pub exit_code: i64,
    pub session_id: String,
    pub issue_ref: IssueRef,
    pub issue_title: String,
    pub issue_url: String,
    pub directive: String,
    pub role_name: String,
    pub run_dir: String,
    pub log_file: String,
    pub completion_file: String,
    pub git_workdir: String,
    pub git_remote: String,
    pub git_base: String,
    pub git_branch: String,
    pub forgejoctl_bin: String,
    pub forgejo_config: Option<String>,
    pub token_file: String,
    pub principal_workdir: Option<String>,
    pub sidecar_repo: Option<RepoRef>,
    pub sidecar_git_workdir: Option<String>,
    pub sidecar_git_remote: Option<String>,
    pub sidecar_git_base: Option<String>,
    pub sidecar_git_branch: Option<String>,
    pub sidecar_principal_workdir: Option<String>,
}

/// What is landed: nothing but for a completed dispatch; the sidecar, where there is one, before the
/// repository of the issue.
pub struct FinalizeTargets {
    pub reported: ReportedStatus,
    pub sidecar: Option<LandingInput<String>>,
    pub primary: Option<LandingInput<String>>,
}

/// The landing of the repository of the issue.
pub open spec fn primary_input(a: FinalizeDispatchArgs) -> LandingInput<Seq<char>> {
    LandingInput {
        dispatch_id: a.dispatch_id,
        directive: a.directive@,
        role_name: a.role_name@,
        issue_repo_owner: a.issue_ref.repo.owner@,
        issue_repo_name: a.issue_ref.repo.repo@,
        issue_number: a.issue_ref.number,
        issue_title: a.issue_title@,
        kind: "primary"@,
        repo_owner: a.issue_ref.repo.owner@,
        repo_name: a.issue_ref.repo.repo@,
        git_remote: a.git_remote@,
        git_base: a.git_base@,
        git_branch: a.git_branch@,
        has_principal: a.principal_workdir is Some,
    }
}

/// The landing of the sidecar.
pub open spec fn sidecar_input(a: FinalizeDispatchArgs) -> LandingInput<Seq<char>> {
    LandingInput {
        kind: "sidecar"@,
        repo_owner: a.sidecar_repo->0.owner@,
        repo_name: a.sidecar_repo->0.repo@,
        git_remote: a.sidecar_git_remote->0@,
        git_base: a.sidecar_git_base->0@,
        git_branch: a.sidecar_git_branch->0@,
        has_principal: a.sidecar_principal_workdir is Some,
        ..primary_input(a)
    }
}

/// What a sidecar lacks, the first of it.
pub open spec fn sidecar_lacks(a: FinalizeDispatchArgs) -> Option<Seq<char>> {
    if a.sidecar_repo is None {
        None
    } else if a.sidecar_git_workdir is None {
        Some("sidecar_git_workdir"@)
    } else if a.sidecar_git_remote is None {
        Some("sidecar_git_remote"@)
    } else if a.sidecar_git_base is None {
        Some("sidecar_git_base"@)
    } else if a.sidecar_git_branch is None {
        Some("sidecar_git_branch"@)
    } else {
        None
    }
}

/// Says what a sidecar lacks.
fn lacking(field: &str, repo: &RepoRef) -> (r: String)
    ensures
        r@ == field@ + " missing for "@ + repo.full(),
{
    let full = repo.text();
    cat3(field, " missing for ", full.as_str())
}

/// What was reported and what is landed: the sidecar and the repository of the issue. Or why the dispatch
/// cannot be finalized.
pub open spec fn targets(a: FinalizeDispatchArgs) -> Result<
    (ReportedStatus, Option<LandingInput<Seq<char>>>, Option<LandingInput<Seq<char>>>),
    Seq<char>,
> {
    match reported(a.status@) {
        None => Err("unsupported finalize status '"@ + a.status@ + "'"@),
        Some(s) => if s != ReportedStatus::Completed {
            Ok((s, None, None))
        } else {
            match sidecar_lacks(a) {
                Some(field) => Err(field + " missing for "@ + a.sidecar_repo->0.full()),
                None => Ok(
                    (
                        s,
                        if a.sidecar_repo is Some {
                            Some(sidecar_input(a))
                        } else {
                            None
                        },
                        Some(primary_input(a)),
                    ),
                ),
            }
        },
    }
}

/// The view of what is landed.
pub open spec fn targets_view(t: FinalizeTargets) -> (
    ReportedStatus,
    Option<LandingInput<Seq<char>>>,
    Option<LandingInput<Seq<char>>>,
) {
    (
        t.reported,
        match t.sidecar {
            Some(x) => Some(input_view(x)),
            None => None,
        },
        match t.primary {
            Some(x) => Some(input_view(x)),
            None => None,
        },
    )
}

/// What is landed for a finished dispatch; or why it cannot be finalized.
pub fn finalize_targets(args: &FinalizeDispatchArgs) -> (r: Result<FinalizeTargets, String>)
    ensures
        match targets(*args) {
            Ok(t) => r matches Ok(x) && targets_view(x) == t,
            Err(m) => r matches Err(e) && e@ == m,
        },
{
    let status = match parse_reported_status(args.status.as_str()) {
        Ok(s) => s,
        Err(e) => {
            return Err(e);
        },
    };
    if status != ReportedStatus::Completed {
        return Ok(FinalizeTargets { reported: status, sidecar: None, primary: None });
    }
    let primary = LandingInput {
        dispatch_id: args.dispatch_id,
        directive: args.directive.clone(),
        role_name: args.role_name.clone(),
        issue_repo_owner: args.issue_ref.repo.owner.clone(),
        issue_repo_name: args.issue_ref.repo.repo.clone(),
        issue_number: args.issue_ref.number,
        issue_title: args.issue_title.clone(),
        kind: "primary".to_owned(),
        repo_owner: args.issue_ref.repo.owner.clone(),
        repo_name: args.issue_ref.repo.repo.clone(),
        git_remote: args.git_remote.clone(),
        git_base: args.git_base.clone(),
        git_branch: args.git_branch.clone(),
        has_principal: args.principal_workdir.is_some(),
    };
    let mut sidecar: Option<LandingInput<String>> = None;
    if let Some(repo) = &args.sidecar_repo {
        if args.sidecar_git_workdir.is_none() {
            return Err(lacking("sidecar_git_workdir", repo));
        }
        let remote = match &args.sidecar_git_remote {
            Some(x) => x.clone(),
            None => {
                return Err(lacking("sidecar_git_remote", repo));
            },
        };
        let base = match &args.sidecar_git_base {
            Some(x) => x.clone(),
            None => {
                return Err(lacking("sidecar_git_base", repo));
            },
        };
        let branch = match &args.sidecar_git_branch {
            Some(x) => x.clone(),
            None => {
                return Err(lacking("sidecar_git_branch", repo));
            },
        };
        sidecar =
        Some(
            LandingInput {
                dispatch_id: args.dispatch_id,
                directive: args.directive.clone(),
                role_name: args.role_name.clone(),
                issue_repo_owner: args.issue_ref.repo.owner.clone(),
                issue_repo_name: args.issue_ref.repo.repo.clone(),
                issue_number: args.issue_ref.number,
                issue_title: args.issue_title.clone(),
                kind: "sidecar".to_owned(),
                repo_owner: repo.owner.clone(),
                repo_name: repo.repo.clone(),
                git_remote: remote,
                git_base: base,
                git_branch: branch,
                has_principal: args.sidecar_principal_workdir.is_some(),
            },
        );
    }
    Ok(FinalizeTargets { reported: status, sidecar, primary: Some(primary) })
}

/// A sidecar that did not land settles the dispatch: the repository of the issue is left alone.
pub fn sidecar_settles(sidecar: &LandingOutcome) -> (r: bool)
    ensures
        r == (sidecar is Blocked || sidecar is Failure),
{
    match sidecar {
        LandingEnd::Blocked { .. } => true,
        LandingEnd::Failure { .. } => true,
        _ => false,
    }
}

/// The landing that decides how the dispatch ends.
pub open spec fn deciding(sidecar: Option<LandingOutcome>, primary: LandingOutcome) -> EndSpec {
    match sidecar {
        Some(s) => if s is Blocked || s is Failure {
            end_view(s)
        } else {
            end_view(primary)
        },
        None => end_view(primary),
    }
}

/// The lines of a landing.
pub open spec fn landing_lines(e: EndSpec) -> Seq<Seq<char>> {
    match e {
        LandingEnd::NotRequired => Seq::empty(),
        LandingEnd::Success(l) => l,
        LandingEnd::Blocked { lines, .. } => lines,
        LandingEnd::Failure { lines, .. } => lines,
    }
}

/// The section of the completion file for a landing in a repository.
fn landing_section(repo: &RepoRef, landing: &LandingOutcome) -> (r: String)
    ensures
        r@ == section("Landing ("@ + repo.full() + ")"@, landing_lines(end_view(*landing))),
{
    let full = repo.text();
    let header = cat3("Landing (", full.as_str(), ")");
    match landing {
        LandingEnd::NotRequired => {
            let none: Vec<String> = Vec::new();
            proof {
                assert(views(none@) =~= Seq::<Seq<char>>::empty());
            }
            append_completion_section(header.as_str(), &none)
        },
        LandingEnd::Success(l) => append_completion_section(header.as_str(), l),
        LandingEnd::Blocked { lines, .. } => append_completion_section(header.as_str(), lines),
        LandingEnd::Failure { lines, .. } => append_completion_section(header.as_str(), lines),
    }
}

/// What is done to finalize a dispatch, in order.
pub struct FinalizePlan {
    /// The final state that is recorded.
    pub status: TerminalStatusSpec,
    /// The session that is recorded beside it, as it was given.
    pub session_id: Option<String>,
    /// The session that the context of a timer is told of.
    pub context_session: Option<String>,
    /// Appended to the completion file.
    pub sidecar_section: String,
    /// Appended to the completion file.
    pub primary_section: String,
    /// The comment of a blocked landing, sent once per key.
    pub comment: Option<LandingComment<String>>,
    /// Moves the issue.
    pub transition: Option<Vec<String>>,
    /// Shows the state on the issue.
    pub orchd_state: Vec<String>,
    /// The ticket that asks why the dispatch failed.
    pub inquisition: Option<InquisitionSpec>,
}

/// The arguments that show a state on an issue; a failure is shown with its reason.
pub open spec fn state_args(issue: Seq<char>, state: OrchdRuntimeState, reason: Seq<char>) -> Seq<
    Seq<char>,
> {
    let head = seq!["issue"@, "orchd-state"@, issue, "--to"@, state.word()];
    if state == OrchdRuntimeState::Failed && !blank(reason) {
        head + seq!["--reason-code"@, reason]
    } else {
        head
    }
}

/// The arguments that show a state on an issue.
fn orchd_state_args(issue: &str, state: OrchdRuntimeState, reason: &str) -> (r: Vec<String>)
    ensures
        views(r@) == state_args(issue@, state, reason@),
{
    if state == OrchdRuntimeState::Failed && !str_blank(reason) {
        let a = ["issue", "orchd-state", issue, "--to", state.as_str(), "--reason-code", reason];
        let r = texts(&a);
        proof {
            assert(views(r@) =~= state_args(issue@, state, reason@));
        }
        r
    } else {
        let a = ["issue", "orchd-state", issue, "--to", state.as_str()];
        let r = texts(&a);
        proof {
            assert(views(r@) =~= state_args(issue@, state, reason@));
        }
        r
    }
}

/// The arguments that comment on an issue, where it was new to record that this is to be done.
pub fn maybe_post_landing_comment(should_send: bool, issue: &str, body: &str) -> (r: Option<
    Vec<String>,
>)
    ensures
        r is Some <==> should_send,
        r matches Some(list) ==> views(list@) == seq![
            "issue"@,
            "comment"@,
            issue@,
            "--body"@,
            body@,
        ],
{
    if !should_send {
        return None;
    }
    let a = ["issue", "comment", issue, "--body", body];
    let list = texts(&a);
    proof {
        assert(views(list@) =~= seq!["issue"@, "comment"@, issue@, "--body"@, body@]);
    }
    Some(list)
}

/// A failed dispatch is looked into, unless it was itself an audit.
pub open spec fn looked_into(a: FinalizeDispatchArgs, state: OrchdRuntimeState) -> bool {
    &&& state == OrchdRuntimeState::Failed
    &&& a.role_name@ != "codex-audit"@
    &&& a.directive@ != DIRECTIVE_AUDIT@
    &&& a.directive@ != DIRECTIVE_AUDIT_FAILURE@
}

/// The ticket tells of the dispatch and of the reason.
pub open spec fn tells(t: InquisitionSpec, a: FinalizeDispatchArgs, reason: Seq<char>) -> bool {
    &&& t.source_issue.full() == a.issue_ref.full()
    &&& opt_view(t.source_issue_title) == Some(a.issue_title@)
    &&& opt_view(t.source_issue_url) == Some(a.issue_url@)
    &&& t.dispatch_id == Some(a.dispatch_id)
    &&& opt_view(t.directive) == Some(a.directive@)
    &&& opt_view(t.role_name) == Some(a.role_name@)
    &&& t.reason_code@ == reason
    &&& t.exit_code == Some(a.exit_code)
    &&& opt_view(t.run_dir) == Some(a.run_dir@)
    &&& opt_view(t.log_file) == Some(a.log_file@)
    &&& opt_view(t.completion_file) == Some(a.completion_file@)
    &&& t.error_text is None
}

/// The plan finalizes the dispatch after the landings.
pub open spec fn finalizes(
    plan: FinalizePlan,
    a: FinalizeDispatchArgs,
    reported: ReportedStatus,
    sidecar: Option<LandingOutcome>,
    primary: LandingOutcome,
) -> bool {
    let landing = deciding(sidecar, primary);
    let t = terminal(reported, a.reason_code@, landing);
    let issue = a.issue_ref.full();
    &&& plan.status.parts() == t
    &&& opt_view(plan.session_id) == (if blank(a.session_id@) {
        None
    } else {
        Some(a.session_id@)
    })
    &&& opt_view(plan.context_session) == (if blank(a.session_id@) {
        None
    } else {
        Some(trim(a.session_id@))
    })
    &&& plan.sidecar_section@ == (match (sidecar, a.sidecar_repo) {
        (Some(s), Some(repo)) => section(
            "Landing ("@ + repo.full() + ")"@,
            landing_lines(end_view(s)),
        ),
        (Some(s), None) => section("Landing (sidecar)"@, landing_lines(end_view(s))),
        (None, _) => Seq::empty(),
    })
    &&& plan.primary_section@ == section(
        "Landing ("@ + a.issue_ref.repo.full() + ")"@,
        landing_lines(end_view(primary_of(sidecar, primary))),
    )
    &&& (match landing {
        LandingEnd::Blocked { comment: Some(c), .. } => plan.comment matches Some(x)
            && x.delivery_kind@ == c.delivery_kind && x.dedupe_key@ == c.dedupe_key && x.body@
            == c.body,
        _ => plan.comment is None,
    })
    &&& plan.transition is Some <==> a.directive@ == DIRECTIVE_IMPL@ && t.2
        == DispatchState::Completed
    &&& plan.transition matches Some(x) ==> views(x@) == seq![
        "issue"@,
        "transition"@,
        issue,
        "--to"@,
        "done"@,
        "--force"@,
    ]
    &&& views(plan.orchd_state@) == state_args(issue, t.1, t.3)
    &&& plan.inquisition is Some <==> looked_into(a, t.1)
    &&& plan.inquisition matches Some(x) ==> tells(x, a, t.3)
}

/// The landing of the repository of the issue: none where the sidecar settled the dispatch.
pub open spec fn primary_of(sidecar: Option<LandingOutcome>, primary: LandingOutcome) -> LandingOutcome {
    match sidecar {
        Some(s) => if s is Blocked || s is Failure {
            LandingEnd::NotRequired
        } else {
            primary
        },
        None => primary,
    }
}

/// The comment of a blocked landing.
fn comment_of(landing: &LandingOutcome) -> (r: Option<LandingComment<String>>)
    ensures
        match end_view(*landing) {
            LandingEnd::Blocked { comment: Some(c), .. } => r matches Some(x) && x.delivery_kind@
                == c.delivery_kind && x.dedupe_key@ == c.dedupe_key && x.body@ == c.body,
            _ => r is None,
        },
{
    if let LandingEnd::Blocked { comment, .. } = landing {
        if let Some(c) = comment {
            return Some(
                LandingComment {
                    delivery_kind: c.delivery_kind.clone(),
                    dedupe_key: c.dedupe_key.clone(),
                    body: c.body.clone(),
                },
            );
        }
    }
    None
}

/// What is done to finalize a dispatch once its branches were landed, or were not.
pub fn finalize_dispatch_command(
    args: &FinalizeDispatchArgs,
    reported: ReportedStatus,
    sidecar: &Option<LandingOutcome>,
    primary: &LandingOutcome,
) -> (r: FinalizePlan)
    ensures
        finalizes(r, *args, reported, *sidecar, *primary),
{
    let not_required: LandingOutcome = LandingEnd::NotRequired;
    let (landing, landed_primary) = match sidecar {
        Some(s) => if sidecar_settles(s) {
            (s, &not_required)
        } else {
            (primary, primary)
        },
        None => (primary, primary),
    };
    let status = terminal_spec_from_outcome(reported, args.reason_code.as_str(), landing);
    let session = str_trim(args.session_id.as_str());
    let (session_id, context_session) = if session.is_empty() {
        (None, None)
    } else {
        (Some(args.session_id.clone()), Some(session.to_owned()))
    };
    let sidecar_section = match (sidecar, &args.sidecar_repo) {
        (Some(s), Some(repo)) => landing_section(repo, s),
        (Some(s), None) => match s {
            LandingEnd::NotRequired => String::new(),
            LandingEnd::Success(l) => append_completion_section("Landing (sidecar)", l),
            LandingEnd::Blocked { lines, .. } => append_completion_section(
                "Landing (sidecar)",
                lines,
            ),
            LandingEnd::Failure { lines, .. } => append_completion_section(
                "Landing (sidecar)",
                lines,
            ),
        },
        (None, _) => String::new(),
    };
    let primary_section = landing_section(&args.issue_ref.repo, landed_primary);
    let comment = comment_of(landing);
    let issue = args.issue_ref.text();
    let transition = match work_state_transition_target(
        args.directive.as_str(),
        status.state_literal,
    ) {
        Some(to) => {
            let a = ["issue", "transition", issue.as_str(), "--to", to, "--force"];
            let list = texts(&a);
            proof {
                assert(views(list@) =~= seq![
                    "issue"@,
                    "transition"@,
                    issue@,
                    "--to"@,
                    "done"@,
                    "--force"@,
                ]);
            }
            Some(list)
        },
        None => None,
    };
    let orchd_state = orchd_state_args(
        issue.as_str(),
        status.runtime_state,
        status.reason_code.as_str(),
    );
    let inquisition = if status.runtime_state == OrchdRuntimeState::Failed && !str_eq(
        args.role_name.as_str(),
        "codex-audit",
    ) && !str_eq(args.directive.as_str(), DIRECTIVE_AUDIT) && !str_eq(
        args.directive.as_str(),
        DIRECTIVE_AUDIT_FAILURE,
    ) {
        Some(
            InquisitionSpec {
                source_issue: IssueRef {
                    repo: args.issue_ref.repo.copied(),
                    number: args.issue_ref.number,
                },
                source_issue_title: Some(args.issue_title.clone()),
                source_issue_url: Some(args.issue_url.clone()),
                dispatch_id: Some(args.dispatch_id),
                directive: Some(args.directive.clone()),
                role_name: Some(args.role_name.clone()),
                reason_code: status.reason_code.clone(),
                exit_code: Some(args.exit_code),
                run_dir: Some(args.run_dir.clone()),
                log_file: Some(args.log_file.clone()),
                completion_file: Some(args.completion_file.clone()),
                error_text: None,
            },
        )
    } else {
        None
    };
    FinalizePlan {
        status,
        session_id,
        context_session,
        sidecar_section,
        primary_section,
        comment,
        transition,
        orchd_state,
        inquisition,
    }
}

/// How the ledger enters the end of a dispatch.
pub open spec fn end_of(plan: FinalizePlan, exit_code: i64) -> DispatchEnd<Seq<char>> {
    DispatchEnd {
        event_kind: plan.status.event_kind,
        reason_code: plan.status.reason_code@,
        exit_code,
        session_id: opt_view(plan.session_id),
    }
}

/// What is left of a plan once the end was recorded, or was not: all of it, or nothing.
pub fn after_recording(recorded: bool, plan: FinalizePlan) -> (r: Option<FinalizePlan>)
    ensures
        r == (if recorded {
            Some(plan)
        } else {
            None
        }),
{
    if recorded {
        Some(plan)
    } else {
        None
    }
}

/// Enters the end of a dispatch into the ledger. The rest of the plan is handed back where the end was
/// new; nothing is left to do for a dispatch that had ended or that there is not.
pub fn record_finalization(
    ledger: &mut Ledger,
    args: &FinalizeDispatchArgs,
    plan: FinalizePlan,
    now: &str,
) -> (r: Result<Option<FinalizePlan>, String>)
    ensures
        match (r, ended(old(ledger)@, args.dispatch_id, end_of(plan, args.exit_code), now@)) {
            (Ok(Some(rest)), Ok(after)) => after.1 && rest == plan && final(ledger)@ == after.0,
            (Ok(None), Ok(after)) => !after.1 && final(ledger)@ == after.0,
            (Err(e), Err(says)) => e@ == says && final(ledger)@ == old(ledger)@,
            _ => false,
        },
        old(ledger)@.wf() ==> final(ledger)@.wf(),
        old(ledger)@.exclusive() ==> final(ledger)@.exclusive(),
{
    let end = DispatchEnd {
        event_kind: plan.status.event_kind,
        reason_code: plan.status.reason_code.clone(),
        exit_code: args.exit_code,
        session_id: clone_opt(&plan.session_id),
    };
    match ledger.update_dispatch_terminal(args.dispatch_id, end, now) {
        Ok(recorded) => Ok(after_recording(recorded, plan)),
        Err(e) => Err(e),
    }
}

/// A dispatch is finalized once. The recording of its end succeeds; and whatever is reported of it
/// afterwards, the ledger stays as it is and nothing of the plan is left to do. Where the report is not one
/// of completion, nothing is landed before that either.
pub proof fn law_dispatches_are_finalized_once(
    b: Book,
    a: FinalizeDispatchArgs,
    plan: FinalizePlan,
    how: ReportedStatus,
    sidecar: Option<LandingOutcome>,
    primary: LandingOutcome,
    now: Seq<char>,
    again: FinalizeDispatchArgs,
    next_plan: FinalizePlan,
    later: Seq<char>,
)
    requires
        finalizes(plan, a, how, sidecar, primary),
        again.dispatch_id == a.dispatch_id,
    ensures
        ended(b, a.dispatch_id, end_of(plan, a.exit_code), now) is Ok,
        ({
            let after = ended(b, a.dispatch_id, end_of(plan, a.exit_code), now)->Ok_0.0;
            ended(after, again.dispatch_id, end_of(next_plan, again.exit_code), later) == Ok::<
                (Book, bool),
                Seq<char>,
            >((after, false))
        }),
        reported(again.status@) is Some && reported(again.status@) != Some(ReportedStatus::Completed)
            ==> (targets(again) matches Ok(t) && t.1 is None && t.2 is None),
{
    law_dispatches_end_once(
        b,
        a.dispatch_id,
        end_of(plan, a.exit_code),
        now,
        end_of(next_plan, again.exit_code),
        later,
    );
}

/// A dispatch is completed, and its issue moves on, only where its runner reported completion and
/// every landing that was tried went well.
pub proof fn law_completion_needs_a_good_landing(
    plan: FinalizePlan,
    a: FinalizeDispatchArgs,
    reported: ReportedStatus,
    sidecar: Option<LandingOutcome>,
    primary: LandingOutcome,
)
    requires
        finalizes(plan, a, reported, sidecar, primary),
    ensures
        plan.status.state_literal == DispatchState::Completed <==> reported
            == ReportedStatus::Completed && (sidecar matches Some(s) ==> !(s is Blocked
            || s is Failure)) && !(primary is Blocked || primary is Failure),
        plan.transition is Some ==> plan.status.state_literal == DispatchState::Completed,
{
    if sidecar is Some && !(sidecar->0 is Blocked || sidecar->0 is Failure) {
        assert(deciding(sidecar, primary) == end_view(primary));
    }
}

/// A dispatch is blocked exactly where it is completed but for a blocked landing, and only a blocked
/// landing is told to the issue.
pub proof fn law_only_blocked_landings_are_told(
    plan: FinalizePlan,
    a: FinalizeDispatchArgs,
    reported: ReportedStatus,
    sidecar: Option<LandingOutcome>,
    primary: LandingOutcome,
)
    requires
        finalizes(plan, a, reported, sidecar, primary),
    ensures
        plan.status.state_literal == DispatchState::Blocked <==> reported
            == ReportedStatus::Completed && deciding(sidecar, primary) is Blocked,
        plan.comment is Some ==> deciding(sidecar, primary) is Blocked,
{
}

/// The failure of an audit opens no ticket, so that audits do not call for audits.
pub proof fn law_audits_are_not_looked_into(
    plan: FinalizePlan,
    a: FinalizeDispatchArgs,
    reported: ReportedStatus,
    sidecar: Option<LandingOutcome>,
    primary: LandingOutcome,
)
    requires
        finalizes(plan, a, reported, sidecar, primary),
        a.role_name@ == "codex-audit"@ || a.directive@ == DIRECTIVE_AUDIT@ || a.directive@
            == DIRECTIVE_AUDIT_FAILURE@,
    ensures
        plan.inquisition is None,
{
}

/// How a dispatch ends follows from what its runner reported and from its landings: a report of a timeout
/// or a failure stands, whatever landed; a completed dispatch ends as the sidecar where that did not land,
/// else as the repository of the issue.
pub proof fn law_dispatches_end_as_reported_and_landed(
    plan: FinalizePlan,
    a: FinalizeDispatchArgs,
    how: ReportedStatus,
    sidecar: Option<LandingOutcome>,
    primary: LandingOutcome,
)
    requires
        finalizes(plan, a, how, sidecar, primary),
    ensures
        plan.status.state_literal == (match how {
            ReportedStatus::TimedOut => DispatchState::TimedOut,
            ReportedStatus::FailedRuntime => DispatchState::FailedRuntime,
            ReportedStatus::Completed => match (sidecar, primary) {
                (Some(LandingEnd::Blocked { .. }), _) => DispatchState::Blocked,
                (Some(LandingEnd::Failure { .. }), _) => DispatchState::FailedRuntime,
                (_, LandingEnd::Blocked { .. }) => DispatchState::Blocked,
                (_, LandingEnd::Failure { .. }) => DispatchState::FailedRuntime,
                _ => DispatchState::Completed,
            },
        }),
        plan.status.reason_code@ == (match (how, sidecar, primary) {
            (
                ReportedStatus::Completed,
                Some(LandingEnd::Blocked { reason_code, .. }),
                _,
            ) => reason_code@,
            (
                ReportedStatus::Completed,
                Some(LandingEnd::Failure { reason_code, .. }),
                _,
            ) => reason_code@,
            (ReportedStatus::Completed, _, LandingEnd::Blocked { reason_code, .. }) => reason_code@,
            (ReportedStatus::Completed, _, LandingEnd::Failure { reason_code, .. }) => reason_code@,
            _ => a.reason_code@,
        }),
{
}

/// What the issue shows agrees with what is recorded: completed with completed, blocked with blocked, and
/// failed with a timeout or a failure.
pub proof fn law_shown_states_are_the_recorded_ones(
    how: ReportedStatus,
    fallback: Seq<char>,
    landing: EndSpec,
)
    ensures
        ({
            let t = terminal(how, fallback, landing);
            &&& t.1 == OrchdRuntimeState::Completed <==> t.2 == DispatchState::Completed
            &&& t.1 == OrchdRuntimeState::Blocked <==> t.2 == DispatchState::Blocked
            &&& t.1 == OrchdRuntimeState::Failed <==> t.2 == DispatchState::TimedOut || t.2
                == DispatchState::FailedRuntime
            &&& t.2 == DispatchState::Completed || t.2 == DispatchState::Blocked || t.2
                == DispatchState::TimedOut || t.2 == DispatchState::FailedRuntime
        }),
{
}

/// The ledger enters the state that was settled on: whichever of the two states under way the dispatch is
/// in, its event leads to that state.
pub proof fn law_ledger_enters_the_settled_state(
    how: ReportedStatus,
    fallback: Seq<char>,
    landing: EndSpec,
    s: DispatchState,
)
    requires
        s == DispatchState::Starting || s == DispatchState::Running,
    ensures
        next_state(s, terminal(how, fallback, landing).0) == Some(terminal(how, fallback, landing).2),
{
}

/// The row of a dispatch that is finalized while it is under way says how it ended: the word of its state,
/// the reason, the exit code and the time. No other row changes.
pub proof fn law_finalized_rows_tell_the_end(
    b: Book,
    k: int,
    plan: FinalizePlan,
    a: FinalizeDispatchArgs,
    how: ReportedStatus,
    sidecar: Option<LandingOutcome>,
    primary: LandingOutcome,
    now: Seq<char>,
)
    requires
        finalizes(plan, a, how, sidecar, primary),
        b.wf(),
        0 <= k < b.rows.len(),
        b.rows[k].id == a.dispatch_id,
        b.rows[k].status == "starting"@ || b.rows[k].status == "running"@,
    ensures
        ended(b, a.dispatch_id, end_of(plan, a.exit_code), now) matches Ok(after) && after.1 && {
            let row = after.0.rows[k];
            &&& row.status == (match plan.status.state_literal {
                DispatchState::Completed => "completed"@,
                DispatchState::Blocked => "blocked"@,
                DispatchState::TimedOut => "timed_out"@,
                _ => "failed_runtime"@,
            })
            &&& row.reason_code == Some(plan.status.reason_code@)
            &&& row.exit_code == Some(a.exit_code)
            &&& row.ended_at == Some(now)
            &&& row.codex_session_id == (if blank(a.session_id@) {
                None
            } else {
                Some(a.session_id@)
            })
            &&& forall|j: int|
                0 <= j < b.rows.len() && j != k ==> #[trigger] after.0.rows[j] == b.rows[j]
        },
{
    law_dispatch_states_read_back(DispatchState::Starting, b.rows[k].status);
    law_dispatch_states_read_back(DispatchState::Running, b.rows[k].status);
    lemma_place_is(b.rows, a.dispatch_id, k);
}

/// The issue shows how the dispatch ended, with the reason where it failed, and its issue is done exactly
/// where code was to be changed and the dispatch completed.
pub proof fn law_ends_are_shown(
    plan: FinalizePlan,
    a: FinalizeDispatchArgs,
    how: ReportedStatus,
    sidecar: Option<LandingOutcome>,
    primary: LandingOutcome,
)
    requires
        finalizes(plan, a, how, sidecar, primary),
    ensures
        ({
            let head = seq!["issue"@, "orchd-state"@, a.issue_ref.full(), "--to"@];
            &&& plan.status.state_literal == DispatchState::Completed ==> views(plan.orchd_state@)
                == head.push("completed"@)
            &&& plan.status.state_literal == DispatchState::Blocked ==> views(plan.orchd_state@)
                == head.push("blocked"@)
            &&& plan.status.state_literal == DispatchState::TimedOut || plan.status.state_literal
                == DispatchState::FailedRuntime ==> views(plan.orchd_state@) == (if blank(
                plan.status.reason_code@,
            ) {
                head.push("failed"@)
            } else {
                head.push("failed"@).push("--reason-code"@).push(plan.status.reason_code@)
            })
            &&& (a.directive@ == "impl"@ && plan.status.state_literal == DispatchState::Completed) ==> (
            plan.transition matches Some(x) && views(x@) == seq![
                "issue"@,
                "transition"@,
                a.issue_ref.full(),
                "--to"@,
                "done"@,
                "--force"@,
            ])
            &&& !(a.directive@ == "impl"@ && plan.status.state_literal == DispatchState::Completed)
                ==> plan.transition is None
        }),
{
    let t = terminal(how, a.reason_code@, deciding(sidecar, primary));
    let head = seq!["issue"@, "orchd-state"@, a.issue_ref.full(), "--to"@];
    assert(head.push(t.1.word()) =~= seq![
        "issue"@,
        "orchd-state"@,
        a.issue_ref.full(),
        "--to"@,
        t.1.word(),
    ]);
    assert(head.push(t.1.word()).push("--reason-code"@).push(t.3) =~= head.push(t.1.word()) + seq![
        "--reason-code"@,
        t.3,
    ]);
}

/// A dispatch that failed or timed out is looked into by a ticket that names it and the reason, unless it
/// was itself an audit; no other dispatch is.
pub proof fn law_failures_are_looked_into(
    plan: FinalizePlan,
    a: FinalizeDispatchArgs,
    how: ReportedStatus,
    sidecar: Option<LandingOutcome>,
    primary: LandingOutcome,
)
    requires
        finalizes(plan, a, how, sidecar, primary),
    ensures
        plan.inquisition is Some <==> (plan.status.state_literal == DispatchState::TimedOut
            || plan.status.state_literal == DispatchState::FailedRuntime) && a.role_name@
            != "codex-audit"@ && a.directive@ != "audit"@ && a.directive@ != "audit-failure"@,
        plan.inquisition matches Some(x) ==> x.dispatch_id == Some(a.dispatch_id) && x.reason_code@
            == plan.status.reason_code@ && x.source_issue.full() == a.issue_ref.full()
            && x.exit_code == Some(a.exit_code),
{
}

/// A completed dispatch lands the repository of its issue, and before that the sidecar where it has one,
/// each with its own branch, base and remote. Nothing is landed of a dispatch that was not completed.
pub proof fn law_completed_dispatches_land(a: FinalizeDispatchArgs)
    ensures
        targets(a) matches Ok(t) ==> {
            &&& t.0 == ReportedStatus::Completed <==> a.status@ == "completed"@
            &&& t.0 == ReportedStatus::TimedOut <==> a.status@ == "timed_out"@
            &&& t.2 is Some <==> a.status@ == "completed"@
            &&& t.1 is Some <==> a.status@ == "completed"@ && a.sidecar_repo is Some
            &&& t.2 matches Some(p) ==> p.git_branch == a.git_branch@ && p.git_base == a.git_base@
                && p.git_remote == a.git_remote@ && p.repo_owner == a.issue_ref.repo.owner@
                && p.repo_name == a.issue_ref.repo.repo@ && p.directive == a.directive@
                && p.dispatch_id == a.dispatch_id && p.kind == "primary"@ && p.role_name
                == a.role_name@ && p.issue_number == a.issue_ref.number && p.issue_repo_owner
                == a.issue_ref.repo.owner@ && p.issue_repo_name == a.issue_ref.repo.repo@
                && p.issue_title == a.issue_title@ && (p.has_principal
                <==> a.principal_workdir is Some)
            &&& t.1 matches Some(p) ==> opt_view(a.sidecar_git_branch) == Some(p.git_branch)
                && opt_view(a.sidecar_git_base) == Some(p.git_base) && opt_view(a.sidecar_git_remote)
                == Some(p.git_remote) && p.repo_owner == a.sidecar_repo->0.owner@ && p.repo_name
                == a.sidecar_repo->0.repo@ && p.directive == a.directive@ && p.dispatch_id
                == a.dispatch_id && p.kind == "sidecar"@ && p.role_name == a.role_name@
                && p.issue_number == a.issue_ref.number && p.issue_repo_owner
                == a.issue_ref.repo.owner@ && p.issue_repo_name == a.issue_ref.repo.repo@ && (
            p.has_principal <==> a.sidecar_principal_workdir is Some)
        },
        targets(a) is Err <==> !(a.status@ == "completed"@ || a.status@ == "timed_out"@ || a.status@
            == "failed_runtime"@ || a.status@ == "stopped_no_final_answer"@) || (a.status@
            == "completed"@ && a.sidecar_repo is Some && (a.sidecar_git_workdir is None
            || a.sidecar_git_remote is None || a.sidecar_git_base is None
            || a.sidecar_git_branch is None)),
{
    reveal_strlit("completed");
    reveal_strlit("timed_out");
    reveal_strlit("failed_runtime");
    reveal_strlit("stopped_no_final_answer");
    assert("completed"@.len() != "stopped_no_final_answer"@.len());
    assert("timed_out"@.len() != "stopped_no_final_answer"@.len());
    assert("completed"@.len() != "failed_runtime"@.len());
    assert("timed_out"@.len() != "failed_runtime"@.len());
    assert("completed"@[0] != "timed_out"@[0]);
}

/// The percentage of a log is that of its last line which gives one: a line counts only where it speaks
/// of the context and has a percent sign, and lines that give none do not matter.
pub proof fn law_the_last_percentage_counts(log: Seq<Seq<char>>, line: Seq<char>)
    ensures
        remaining(log.push(line)) == (if line_percentage(line) is Some {
            line_percentage(line)
        } else {
            remaining(log)
        }),
        !line.contains('%') ==> line_percentage(line) is None,
        !has_part(lower(line), "context"@) ==> line_percentage(line) is None,
        line_percentage(line) matches Some(n) ==> n <= 100,
        remaining(Seq::empty()) is None,
{
    assert(log.push(line).drop_last() =~= log);
    if line_percentage(line) is Some {
        lemma_percentage(runs_after(Seq::empty(), line));
    }
}

/// A percentage is at most a hundred.
proof fn lemma_percentage(runs: Seq<Seq<char>>)
    ensures
        last_percentage(runs) matches Some(n) ==> n <= 100,
    decreases runs.len(),
{
    if runs.len() > 0 {
        lemma_percentage(runs.drop_last());
    }
}

/// The lines of every landing that was made are told in the completion file under the name of their
/// repository, one item each; a landing without lines adds nothing there.
pub proof fn law_landings_are_written_down(header: Seq<char>, items: Seq<Seq<char>>, item: Seq<char>)
    ensures
        section(header, Seq::empty()) == Seq::<char>::empty(),
        section(header, seq![item]) == "\n---\n"@ + header + ":\n"@ + "- "@ + item + "\n"@,
        items.len() > 0 ==> section(header, items.push(item)) == section(header, items) + "- "@ + item
            + "\n"@,
{
    assert(items.push(item).drop_last() =~= items);
    assert(seq![item].drop_last() =~= Seq::<Seq<char>>::empty());
    assert(bulleted(seq![item].drop_last()) =~= Seq::<char>::empty());
    assert(section(header, seq![item]) =~= "\n---\n"@ + header + ":\n"@ + "- "@ + item + "\n"@);
    assert(bulleted(items.push(item)) =~= bulleted(items) + ("- "@ + item + "\n"@));
    if items.len() > 0 {
        assert(section(header, items.push(item)) =~= section(header, items) + "- "@ + item + "\n"@);
    }
}

/// Work is done exactly where code was to be changed and the dispatch completed.
pub proof fn law_completed_work_is_done(directive: Seq<char>, state: DispatchState)
    ensures
        work_target(directive, state) is Some <==> directive == "impl"@ && state.word() == "completed"@,
        work_target(directive, state) matches Some(t) ==> t == "done"@,
{
    crate::types::law_dispatch_states_read_back(state, "completed"@);
    crate::types::law_dispatch_states_read_back(DispatchState::Completed, "completed"@);
}

} // verus!
