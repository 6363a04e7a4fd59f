//! The run of a dispatch: how the agent is called, what is kept of its session, and what is told of it.

use crate::finalize::{
    law_reported_status_reads_back, reported, FinalizeDispatchArgs, ReportedStatus,
};
use crate::lexicon::{
    DIRECTIVE_AUDIT, DIRECTIVE_AUDIT_FAILURE, DIRECTIVE_DESIGN, DIRECTIVE_INVESTIGATE,
    DIRECTIVE_REPLY,
};
use crate::names::{text_before, text_lt};
use crate::text::{
    after_prefix, blank, byte_len, cat2, cat3, cat4, cat5, cat7, chars_of, clone_opt, decimal,
    decimal_int, fit_back, fitting_back, i64_text, lines, opt_view, str_blank, str_eq, str_lines,
    str_strip_prefix, str_strip_suffix, str_trim, texts, trim, u64_text, views,
};
use crate::types::{issue_parts, repo_parts, IssueRef, RepoRef};
use vstd::prelude::*;
use vstd::string::*;

verus! {

/// What an agent may touch.
#[derive(Clone, Copy, PartialEq, Eq, Structural, Debug)]
pub enum CodexSandbox {
    ReadOnly,
    WorkspaceWrite,
}

impl CodexSandbox {
    /// The word for the sandbox.
    pub open spec fn word(self) -> Seq<char> {
        match self {
            CodexSandbox::ReadOnly => "read-only"@,
            CodexSandbox::WorkspaceWrite => "workspace-write"@,
        }
    }

    /// The word for the sandbox.
    pub fn as_str(self) -> (r: &'static str)
        ensures
            r@ == self.word(),
    {
        match self {
            CodexSandbox::ReadOnly => "read-only",
            CodexSandbox::WorkspaceWrite => "workspace-write",
        }
    }
}

/// The directives that read and do not write.
pub open spec fn reads_only(d: Seq<char>) -> bool {
    ||| d == DIRECTIVE_DESIGN@
    ||| d == DIRECTIVE_INVESTIGATE@
    ||| d == DIRECTIVE_REPLY@
    ||| d == DIRECTIVE_AUDIT@
    ||| d == DIRECTIVE_AUDIT_FAILURE@
}

/// What an agent may touch for a directive.
pub fn codex_sandbox_for_directive(directive: &str) -> (r: CodexSandbox)
    ensures
        r == (if reads_only(directive@) {
            CodexSandbox::ReadOnly
        } else {
            CodexSandbox::WorkspaceWrite
        }),
{
    if str_eq(directive, DIRECTIVE_DESIGN) || str_eq(directive, DIRECTIVE_INVESTIGATE) || str_eq(
        directive,
        DIRECTIVE_REPLY,
    ) || str_eq(directive, DIRECTIVE_AUDIT) || str_eq(directive, DIRECTIVE_AUDIT_FAILURE) {
        CodexSandbox::ReadOnly
    } else {
        CodexSandbox::WorkspaceWrite
    }
}

/// The session of an agent: thirty-two hexadecimal digits in five groups.
pub struct CodexSessionId(pub String);

/// A hexadecimal digit.
pub open spec fn is_hex(c: char) -> bool {
    ||| '0' <= c <= '9'
    ||| 'a' <= c <= 'f'
    ||| 'A' <= c <= 'F'
}

/// The places of the hyphens in a session id.
pub open spec fn hyphen_at(i: int) -> bool {
    i == 8 || i == 13 || i == 18 || i == 23
}

/// What is wrong with a session id from a place on, the first of it.
pub open spec fn id_fault_from(v: Seq<char>, i: int) -> Option<Seq<char>>
    decreases v.len() - i,
{
    if i < 0 || i >= v.len() {
        None
    } else if hyphen_at(i) && v[i] != '-' {
        Some("invalid codex session id (expected hyphen): "@ + v)
    } else if !hyphen_at(i) && !is_hex(v[i]) {
        Some("invalid codex session id (expected hex): "@ + v)
    } else {
        id_fault_from(v, i + 1)
    }
}

/// What is wrong with a session id.
pub open spec fn id_fault(v: Seq<char>) -> Option<Seq<char>> {
    if v.len() == 0 {
        Some("codex session id must be non-empty"@)
    } else if byte_len(v) != 36 {
        Some("invalid codex session id length: "@ + v)
    } else {
        id_fault_from(v, 0)
    }
}

impl CodexSessionId {
    /// Reads a session id.
    pub fn parse(raw: &str) -> (r: Result<CodexSessionId, String>)
        ensures
            match id_fault(trim(raw@)) {
                None => r matches Ok(x) && x.0@ == trim(raw@),
                Some(m) => r matches Err(e) && e@ == m,
            },
    {
        let value = str_trim(raw);
        if value.is_empty() {
            return Err("codex session id must be non-empty".to_owned());
        }
        if crate::text::byte_len_capped(value, 37) != 36 {
            return Err(cat2("invalid codex session id length: ", value));
        }
        let cs = chars_of(value);
        let mut i: usize = 0;
        while i < cs.len()
            invariant
                i <= cs@.len(),
                cs@ == value@,
                value@ == trim(raw@),
                byte_len(value@) == 36,
                value@.len() > 0,
                id_fault_from(value@, 0) == id_fault_from(value@, i as int),
            decreases cs.len() - i,
        {
            let c = cs[i];
            if i == 8 || i == 13 || i == 18 || i == 23 {
                if c != '-' {
                    return Err(cat2("invalid codex session id (expected hyphen): ", value));
                }
            } else if !(('0' <= c && c <= '9') || ('a' <= c && c <= 'f') || ('A' <= c && c <= 'F')) {
                return Err(cat2("invalid codex session id (expected hex): ", value));
            }
            i = i + 1;
        }
        Ok(CodexSessionId(value.to_owned()))
    }

    /// The text of the session id.
    pub fn as_str(&self) -> (r: &str)
        ensures
            r@ == self.0@,
    {
        self.0.as_str()
    }
}

/// A text that reads as a session id has the five groups, and reads as itself.
pub proof fn law_session_ids_are_well_formed(v: Seq<char>)
    requires
        id_fault(v) is None,
    ensures
        forall|i: int|
            0 <= i < v.len() ==> (hyphen_at(i) ==> #[trigger] v[i] == '-') && (!hyphen_at(i)
                ==> is_hex(v[i])),
{
    assert forall|i: int| 0 <= i < v.len() implies (hyphen_at(i) ==> #[trigger] v[i] == '-') && (
    !hyphen_at(i) ==> is_hex(v[i])) by {
        lemma_no_fault_at(v, 0, i);
    }
}

/// Where nothing is wrong from a place on, nothing is wrong at a later place.
proof fn lemma_no_fault_at(v: Seq<char>, from: int, i: int)
    requires
        0 <= from <= i < v.len(),
        id_fault_from(v, from) is None,
    ensures
        hyphen_at(i) ==> v[i] == '-',
        !hyphen_at(i) ==> is_hex(v[i]),
    decreases i - from,
{
    if from < i {
        lemma_no_fault_at(v, from + 1, i);
    }
}

/// A repository that lands together with that of the issue.
pub struct DispatchExecSidecarV1 {
    pub repo_full_name: String,
    pub workdir: String,
    pub principal_workdir: Option<String>,
    pub git_remote: String,
    pub git_base: String,
    pub git_branch: String,
}

/// What a run of a dispatch needs to know.
pub struct DispatchExecSpecV1 {
    pub version: u8,
    pub dispatch_id: i64,
    pub db_path: String,
    pub lock_path: String,
    pub run_dir: String,
    pub prompt_path: String,
    pub summary_path: String,
    pub completion_path: String,
    pub last_message_path: String,
    pub codex_log_path: String,
    pub marker_path: String,
    pub issue_ref: String,
    pub issue_title: String,
    pub issue_url: String,
    pub forgejoctl_bin: String,
    pub forgejo_config_file: Option<String>,
    pub token_file: String,
    pub control_token_file: Option<String>,
    pub workdir: String,
    pub principal_workdir: Option<String>,
    pub sidecar: Option<DispatchExecSidecarV1>,
    pub codex_sandbox: CodexSandbox,
    pub git_remote: String,
    pub git_base: String,
    pub git_branch: String,
    pub codex_bin: String,
    pub codex_role_arg: String,
    pub codex_profile: Option<String>,
    pub issue_session_id: Option<CodexSessionId>,
    pub directive: String,
    pub role_name: String,
    pub timeout_sec: u64,
}

/// The version of what a run needs to know.
pub const SPEC_VERSION_V1: u8 = 1;

impl DispatchExecSpecV1 {
    /// What is wrong with it, the first of it.
    pub open spec fn wrong(self) -> Option<Seq<char>> {
        if self.version != SPEC_VERSION_V1 {
            Some("unsupported dispatch exec spec version "@ + decimal(self.version as nat))
        } else if self.dispatch_id <= 0 {
            Some(
                "dispatch id must be positive (got "@ + decimal_int(self.dispatch_id as int) + ")"@,
            )
        } else if blank(self.directive@) {
            Some("directive must be non-empty"@)
        } else if blank(self.role_name@) {
            Some("role name must be non-empty"@)
        } else if issue_parts(self.issue_ref@) is None {
            Some(
                "invalid issue ref '"@ + self.issue_ref@ + "'; expected owner/repo#number"@,
            )
        } else {
            None
        }
    }

    /// Holds what a run needs to know to its rules.
    pub fn validate(&self) -> (r: Result<(), String>)
        ensures
            match self.wrong() {
                None => r is Ok,
                Some(m) => r matches Err(e) && e@ == m,
            },
    {
        if self.version != SPEC_VERSION_V1 {
            let n = u64_text(self.version as u64);
            return Err(cat2("unsupported dispatch exec spec version ", n.as_str()));
        }
        if self.dispatch_id <= 0 {
            let n = i64_text(self.dispatch_id);
            return Err(cat3("dispatch id must be positive (got ", n.as_str(), ")"));
        }
        if str_blank(self.directive.as_str()) {
            return Err("directive must be non-empty".to_owned());
        }
        if str_blank(self.role_name.as_str()) {
            return Err("role name must be non-empty".to_owned());
        }
        match IssueRef::parse(self.issue_ref.as_str()) {
            Ok(_) => Ok(()),
            Err(e) => Err(e),
        }
    }
}

/// How the agent is started.
pub enum CodexRunMode {
    Fresh,
    Resume,
}

/// The session that a run resumes.
pub open spec fn resumed(spec: DispatchExecSpecV1, mode: CodexRunMode) -> Option<Seq<char>> {
    match (mode, spec.issue_session_id) {
        (CodexRunMode::Resume, Some(id)) => Some(id.0@),
        _ => None,
    }
}

/// The command line of the agent under its time limit.
pub open spec fn agent_args(spec: DispatchExecSpecV1, mode: CodexRunMode) -> Seq<Seq<char>> {
    let head = seq![
        decimal(spec.timeout_sec as nat),
        spec.codex_bin@,
        spec.codex_role_arg@,
        "--sandbox"@,
        spec.codex_sandbox.word(),
        "--cd"@,
        spec.workdir@,
        "--no-alt-screen"@,
        "exec"@,
        "-o"@,
        spec.last_message_path@,
    ];
    match resumed(spec, mode) {
        Some(id) => head + seq!["resume"@, id, "-"@],
        None => head + seq!["-"@],
    }
}

/// The command line of the agent under its time limit; the prompt comes through standard input.
pub fn run_codex_once(spec: &DispatchExecSpecV1, mode: CodexRunMode) -> (r: Vec<String>)
    ensures
        views(r@) == agent_args(*spec, mode),
{
    let limit = u64_text(spec.timeout_sec);
    let head = [
        limit.as_str(),
        spec.codex_bin.as_str(),
        spec.codex_role_arg.as_str(),
        "--sandbox",
        spec.codex_sandbox.as_str(),
        "--cd",
        spec.workdir.as_str(),
        "--no-alt-screen",
        "exec",
        "-o",
        spec.last_message_path.as_str(),
    ];
    let mut list = texts(&head);
    if let CodexRunMode::Resume = mode {
        if let Some(id) = &spec.issue_session_id {
            crate::text::add_text(&mut list, "resume".to_owned());
            crate::text::add_text(&mut list, id.0.clone());
        }
    }
    crate::text::add_text(&mut list, "-".to_owned());
    proof {
        assert(views(list@) =~= agent_args(*spec, mode));
    }
    list
}

/// The code of a program that ended: its own, or that of the signal that ended it.
pub open spec fn end_code(code: Option<i32>, signal: Option<i32>) -> int {
    match (code, signal) {
        (Some(c), _) => c as int,
        (None, Some(s)) => 128 + s,
        (None, None) => 1,
    }
}

/// The exit code of a process: its own, else that of the signal that ended it.
pub fn exit_code(code: Option<i32>, signal: Option<i32>) -> (r: i64)
    ensures
        r == end_code(code, signal),
        r == (match (code, signal) {
            (Some(c), _) => c as int,
            (None, Some(s)) => 128 + s,
            (None, None) => 1,
        }),
{
    match code {
        Some(c) => c as i64,
        None => match signal {
            Some(s) => 128 + (s as i64),
            None => 1,
        },
    }
}

/// The status of a run with an exit code.
pub open spec fn status_of(code: i64) -> ReportedStatus {
    if code == 0 {
        ReportedStatus::Completed
    } else if code == 124 {
        ReportedStatus::TimedOut
    } else {
        ReportedStatus::FailedRuntime
    }
}

/// The status of a run with an exit code.
pub fn codex_status_for_exit_code(code: i64) -> (r: ReportedStatus)
    ensures
        r == status_of(code),
{
    if code == 0 {
        ReportedStatus::Completed
    } else if code == 124 {
        ReportedStatus::TimedOut
    } else {
        ReportedStatus::FailedRuntime
    }
}

/// A run that resumed a session and failed is followed by a fresh one; the log tells of it.
pub fn resume_fallback(session_id: &CodexSessionId, exit_code: i64) -> (r: Option<String>)
    ensures
        opt_view(r) == (if status_of(exit_code) == ReportedStatus::FailedRuntime {
            Some(
                "orchd: resume failed for issue session "@ + session_id.0@
                    + ", falling back to fresh exec"@,
            )
        } else {
            None
        }),
{
    if exit_code != 0 && exit_code != 124 {
        Some(
            cat3(
                "orchd: resume failed for issue session ",
                session_id.as_str(),
                ", falling back to fresh exec",
            ),
        )
    } else {
        None
    }
}

/// The session id that a line of the log gives.
pub open spec fn line_session(line: Seq<char>) -> Option<Seq<char>> {
    match after_prefix(line, "session id: "@) {
        Some(v) => if id_fault(trim(v)) is None {
            Some(trim(v))
        } else {
            None
        },
        None => None,
    }
}

/// The session id that the last line which gives one gives.
pub open spec fn log_session(log: Seq<Seq<char>>) -> Option<Seq<char>>
    decreases log.len(),
{
    if log.len() == 0 {
        None
    } else if line_session(log.last()) is Some {
        line_session(log.last())
    } else {
        log_session(log.drop_last())
    }
}

/// The view of a session id.
pub open spec fn session_view(s: Option<CodexSessionId>) -> Option<Seq<char>> {
    match s {
        Some(x) => Some(x.0@),
        None => None,
    }
}

/// The session id that a log gives last.
pub fn extract_session_id_from_codex_log(raw: &str) -> (r: Option<CodexSessionId>)
    ensures
        session_view(r) == log_session(lines(raw@)),
{
    let log = str_lines(raw);
    let ghost all = views(log@);
    let mut i: usize = log.len();
    proof {
        assert(all.take(i as int) =~= all);
    }
    while i > 0
        invariant
            i <= log@.len(),
            all == views(log@),
            all == lines(raw@),
            log_session(all) == log_session(all.take(i as int)),
        decreases i,
    {
        proof {
            assert(all.take(i as int).last() == all[i - 1]);
            assert(all.take(i as int).drop_last() =~= all.take(i - 1));
        }
        if let Some(v) = str_strip_prefix(log[i - 1].as_str(), "session id: ") {
            if let Ok(id) = CodexSessionId::parse(v) {
                return Some(id);
            }
        }
        i = i - 1;
    }
    None
}

/// The last of the paths in order, that of later ones where two are alike.
pub open spec fn latest(paths: Seq<Seq<char>>) -> Option<Seq<char>>
    decreases paths.len(),
{
    if paths.len() == 0 {
        None
    } else {
        match latest(paths.drop_last()) {
            None => Some(paths.last()),
            Some(p) => if text_lt(paths.last(), p) {
                Some(p)
            } else {
                Some(paths.last())
            },
        }
    }
}

/// The last of the session files in order.
pub fn latest_session_file(paths: &Vec<String>) -> (r: Option<String>)
    ensures
        opt_view(r) == latest(views(paths@)),
{
    let ghost all = views(paths@);
    let mut best: Option<String> = None;
    let mut i: usize = 0;
    proof {
        assert(all.take(0) =~= Seq::<Seq<char>>::empty());
    }
    while i < paths.len()
        invariant
            i <= paths@.len(),
            all == views(paths@),
            opt_view(best) == latest(all.take(i as int)),
        decreases paths.len() - i,
    {
        proof {
            assert(all.take(i + 1).last() == all[i as int]);
            assert(all.take(i + 1).drop_last() =~= all.take(i as int));
        }
        let keep = match &best {
            Some(b) => text_before(paths[i].as_str(), b.as_str()),
            None => false,
        };
        if !keep {
            best = Some(paths[i].clone());
        }
        i = i + 1;
    }
    proof {
        assert(all.take(i as int) =~= all);
    }
    best
}

/// The end of a text, as much as thirty-six bytes hold.
pub open spec fn id_tail(base: Seq<char>) -> Seq<char> {
    base.skip(base.len() - fit_back(base, 36))
}

/// The name of a session file without its ending.
pub open spec fn session_base(file_name: Seq<char>) -> Option<Seq<char>> {
    let ending = ".jsonl"@;
    if ending.is_suffix_of(file_name) {
        Some(file_name.take(file_name.len() - ending.len()))
    } else {
        None
    }
}

/// The last thirty-six bytes of the name of a session file are whole characters.
pub open spec fn ends_in_characters(file_name: Seq<char>) -> bool {
    match session_base(file_name) {
        Some(base) => byte_len(base) < 36 || byte_len(id_tail(base)) == 36,
        None => true,
    }
}

/// Tells whether the last thirty-six bytes of the name of a session file are whole characters.
pub fn session_file_ends_in_characters(file_name: &str) -> (r: bool)
    ensures
        r == ends_in_characters(file_name@),
{
    match str_strip_suffix(file_name, ".jsonl") {
        Some(base) => {
            let cs = chars_of(base);
            let (k, used) = fitting_back(&cs, 36);
            proof {
                assert(cs@.skip(0) =~= cs@);
            }
            k == cs.len() || used == 36
        },
        None => true,
    }
}

/// The session id that the name of a session file ends with; none where the file is another or its name
/// is too short.
pub fn find_session_id_from_newer_sessions(file_name: &str) -> (r: Result<
    Option<CodexSessionId>,
    String,
>)
    requires
        ends_in_characters(file_name@),
    ensures
        match session_base(file_name@) {
            None => r matches Ok(x) && x is None,
            Some(base) => if byte_len(base) < 36 {
                r matches Ok(x) && x is None
            } else {
                match id_fault(trim(id_tail(base))) {
                    None => r matches Ok(Some(x)) && x.0@ == trim(id_tail(base)),
                    Some(m) => r matches Err(e) && e@ == m,
                }
            },
        },
{
    let base = match str_strip_suffix(file_name, ".jsonl") {
        Some(b) => b,
        None => {
            return Ok(None);
        },
    };
    let cs = chars_of(base);
    let (k, used) = fitting_back(&cs, 36);
    proof {
        assert(cs@.skip(0) =~= cs@);
    }
    if used < 36 {
        return Ok(None);
    }
    let tail = base.substring_char(cs.len() - k, cs.len());
    proof {
        assert(tail@ =~= id_tail(base@));
    }
    match CodexSessionId::parse(tail) {
        Ok(id) => Ok(Some(id)),
        Err(e) => Err(e),
    }
}

/// How many lines of the last message a summary holds.
pub const SUMMARY_LINE_LIMIT: usize = 120;

/// Lines, each with its end.
pub open spec fn ended(ls: Seq<Seq<char>>) -> Seq<char>
    decreases ls.len(),
{
    if ls.len() == 0 {
        Seq::empty()
    } else {
        ended(ls.drop_last()) + ls.last() + "\n"@
    }
}

/// The lines that a summary holds.
pub open spec fn head_lines(ls: Seq<Seq<char>>) -> Seq<Seq<char>> {
    if ls.len() <= SUMMARY_LINE_LIMIT {
        ls
    } else {
        ls.take(SUMMARY_LINE_LIMIT as int)
    }
}

/// The summary of a run: the beginning of its last message.
pub open spec fn summary(message: Option<Seq<char>>) -> Seq<char> {
    match message {
        Some(m) => if ended(head_lines(lines(m))).len() == 0 {
            "(no final assistant message)\n"@
        } else {
            ended(head_lines(lines(m)))
        },
        None => "(no final assistant message)\n"@,
    }
}

/// The summary of a run.
pub fn write_summary(last_message: &Option<String>) -> (r: String)
    ensures
        r@ == summary(opt_view(*last_message)),
{
    let message = match last_message {
        Some(m) => m,
        None => {
            return "(no final assistant message)\n".to_owned();
        },
    };
    let ls = str_lines(message.as_str());
    let ghost all = views(ls@);
    let mut out = String::new();
    let mut i: usize = 0;
    proof {
        assert(all.take(0) =~= Seq::<Seq<char>>::empty());
    }
    while i < ls.len() && i < SUMMARY_LINE_LIMIT
        invariant
            i <= ls@.len(),
            i <= SUMMARY_LINE_LIMIT,
            all == views(ls@),
            out@ == ended(all.take(i as int)),
        decreases ls.len() - i,
    {
        proof {
            assert(all.take(i + 1).drop_last() =~= all.take(i as int));
            assert(all.take(i + 1).last() == all[i as int]);
        }
        out.append(ls[i].as_str());
        out.append("\n");
        i = i + 1;
    }
    proof {
        assert(all.len() == ls@.len());
        if ls@.len() <= SUMMARY_LINE_LIMIT {
            assert(all.take(i as int) =~= all);
        }
    }
    if out.as_str().is_empty() {
        return "(no final assistant message)\n".to_owned();
    }
    out
}

/// What is told of a finished run.
pub open spec fn completion(
    spec: DispatchExecSpecV1,
    status: ReportedStatus,
    session: Option<Seq<char>>,
    summary: Seq<char>,
) -> Seq<char> {
    "orchd: dispatch completed id="@ + decimal_int(spec.dispatch_id as int) + " status="@
        + status.word() + " reason="@ + status.reason() + "\ndirective="@ + spec.directive@
        + " role="@ + spec.role_name@ + "\ncodex_session_id="@ + (match session {
        Some(id) => id,
        None => "unknown"@,
    }) + "\nrun_dir="@ + spec.run_dir@ + "\nlog="@ + spec.codex_log_path@ + "\n\n```markdown\n"@
        + summary + "```\n"@
}

/// What is told of a finished run.
pub fn write_completion(
    spec: &DispatchExecSpecV1,
    status: ReportedStatus,
    session_id: &Option<CodexSessionId>,
    summary: &str,
) -> (r: String)
    ensures
        r@ == completion(*spec, status, session_view(*session_id), summary@),
{
    let id = i64_text(spec.dispatch_id);
    let mut m = cat7(
        "orchd: dispatch completed id=",
        id.as_str(),
        " status=",
        status.status_str(),
        " reason=",
        status.reason_code(),
        "\ndirective=",
    );
    m.append(spec.directive.as_str());
    m.append(" role=");
    m.append(spec.role_name.as_str());
    m.append("\ncodex_session_id=");
    match session_id {
        Some(x) => m.append(x.as_str()),
        None => m.append("unknown"),
    }
    m.append("\nrun_dir=");
    m.append(spec.run_dir.as_str());
    m.append("\nlog=");
    m.append(spec.codex_log_path.as_str());
    m.append("\n\n```markdown\n");
    m.append(summary);
    m.append("```\n");
    m
}

/// How often the finalizing of a dispatch is tried.
pub const FINALIZE_ATTEMPTS: u64 = 8;

/// After how many seconds a finalizing that failed is tried again, where it is.
pub open spec fn retry_after(attempt: u64) -> Option<u64> {
    if attempt < FINALIZE_ATTEMPTS {
        Some((attempt * 2) as u64)
    } else {
        None
    }
}

/// What follows a failed try to finalize a dispatch: another after a pause, which grows, until the last.
/// The log gets the line.
pub fn finalize_retry(attempt: u64, error: &str) -> (r: (Option<u64>, String))
    requires
        1 <= attempt <= FINALIZE_ATTEMPTS,
    ensures
        r.0 == retry_after(attempt),
        attempt == FINALIZE_ATTEMPTS ==> r.0 is None && r.1@
            == "orchd: finalize-dispatch failed after "@ + decimal(attempt as nat) + " attempts: "@
            + error@,
        attempt < FINALIZE_ATTEMPTS ==> r.0 == Some((attempt * 2) as u64) && r.1@
            == "orchd: finalize-dispatch attempt "@ + decimal(attempt as nat)
            + " failed; retrying in "@ + decimal((attempt * 2) as nat) + "s: "@ + error@,
{
    let n = u64_text(attempt);
    if attempt >= FINALIZE_ATTEMPTS {
        return (
            None,
            cat4("orchd: finalize-dispatch failed after ", n.as_str(), " attempts: ", error),
        );
    }
    let pause: u64 = attempt * 2;
    let p = u64_text(pause);
    let head = cat5(
        "orchd: finalize-dispatch attempt ",
        n.as_str(),
        " failed; retrying in ",
        p.as_str(),
        "s: ",
    );
    (Some(pause), cat2(head.as_str(), error))
}

/// The token with which a dispatch is finalized: that of the control plane, else that of the role.
pub open spec fn finalize_token(spec: DispatchExecSpecV1) -> Seq<char> {
    match spec.control_token_file {
        Some(t) => t@,
        None => spec.token_file@,
    }
}

/// The arguments finalize the dispatch of the run.
pub open spec fn finalizes_run(
    a: FinalizeDispatchArgs,
    spec: DispatchExecSpecV1,
    status: ReportedStatus,
    exit_code: i64,
    session: Option<Seq<char>>,
) -> bool {
    &&& a.db_path@ == spec.db_path@
    &&& a.dispatch_id == spec.dispatch_id
    &&& a.status@ == status.word()
    &&& a.reason_code@ == status.reason()
    &&& a.exit_code == exit_code
    &&& a.session_id@ == (match session {
        Some(id) => id,
        None => Seq::empty(),
    })
    &&& Some((a.issue_ref.repo.owner@, a.issue_ref.repo.repo@, a.issue_ref.number as nat))
        == issue_parts(spec.issue_ref@)
    &&& a.issue_title@ == spec.issue_title@
    &&& a.issue_url@ == spec.issue_url@
    &&& a.directive@ == spec.directive@
    &&& a.role_name@ == spec.role_name@
    &&& a.run_dir@ == spec.run_dir@
    &&& a.log_file@ == spec.codex_log_path@
    &&& a.completion_file@ == spec.completion_path@
    &&& a.git_workdir@ == spec.workdir@
    &&& a.git_remote@ == spec.git_remote@
    &&& a.git_base@ == spec.git_base@
    &&& a.git_branch@ == spec.git_branch@
    &&& a.forgejoctl_bin@ == spec.forgejoctl_bin@
    &&& opt_view(a.forgejo_config) == opt_view(spec.forgejo_config_file)
    &&& a.token_file@ == finalize_token(spec)
    &&& opt_view(a.principal_workdir) == opt_view(spec.principal_workdir)
    &&& match spec.sidecar {
        Some(x) => {
            &&& (match a.sidecar_repo {
                Some(r) => Some(r.parts()),
                None => None,
            }) == repo_parts(x.repo_full_name@)
            &&& opt_view(a.sidecar_git_workdir) == Some(x.workdir@)
            &&& opt_view(a.sidecar_git_remote) == Some(x.git_remote@)
            &&& opt_view(a.sidecar_git_base) == Some(x.git_base@)
            &&& opt_view(a.sidecar_git_branch) == Some(x.git_branch@)
            &&& opt_view(a.sidecar_principal_workdir) == opt_view(x.principal_workdir)
        },
        None => {
            &&& a.sidecar_repo is None
            &&& a.sidecar_git_workdir is None
            &&& a.sidecar_git_remote is None
            &&& a.sidecar_git_base is None
            &&& a.sidecar_git_branch is None
            &&& a.sidecar_principal_workdir is None
        },
    }
}

/// The arguments with which the dispatch of a run is finalized; or why it cannot be.
pub fn finalize_with_retries(
    spec: &DispatchExecSpecV1,
    status: ReportedStatus,
    exit_code: i64,
    session_id: &Option<CodexSessionId>,
) -> (r: Result<FinalizeDispatchArgs, String>)
    ensures
        match issue_parts(spec.issue_ref@) {
            None => r matches Err(e) && e@ == "invalid issue ref '"@ + spec.issue_ref@
                + "'; expected owner/repo#number"@,
            Some(_) => r matches Ok(a) && finalizes_run(
                a,
                *spec,
                status,
                exit_code,
                session_view(*session_id),
            ),
        },
{
    let issue_ref = match IssueRef::parse(spec.issue_ref.as_str()) {
        Ok(x) => x,
        Err(e) => {
            return Err(e);
        },
    };
    let session = match session_id {
        Some(x) => x.0.clone(),
        None => {
            let t = String::new();
            proof {
                assert(t@ =~= Seq::<char>::empty());
            }
            t
        },
    };
    let token_file = match &spec.control_token_file {
        Some(t) => t.clone(),
        None => spec.token_file.clone(),
    };
    let mut args = FinalizeDispatchArgs {
        db_path: spec.db_path.clone(),
        dispatch_id: spec.dispatch_id,
        status: status.status_str().to_owned(),
        reason_code: status.reason_code().to_owned(),
        exit_code,
        session_id: session,
        issue_ref,
        issue_title: spec.issue_title.clone(),
        issue_url: spec.issue_url.clone(),
        directive: spec.directive.clone(),
        role_name: spec.role_name.clone(),
        run_dir: spec.run_dir.clone(),
        log_file: spec.codex_log_path.clone(),
        completion_file: spec.completion_path.clone(),
        git_workdir: spec.workdir.clone(),
        git_remote: spec.git_remote.clone(),
        git_base: spec.git_base.clone(),
        git_branch: spec.git_branch.clone(),
        forgejoctl_bin: spec.forgejoctl_bin.clone(),
        forgejo_config: clone_opt(&spec.forgejo_config_file),
        token_file,
        principal_workdir: clone_opt(&spec.principal_workdir),
        sidecar_repo: None,
        sidecar_git_workdir: None,
        sidecar_git_remote: None,
        sidecar_git_base: None,
        sidecar_git_branch: None,
        sidecar_principal_workdir: None,
    };
    if let Some(x) = &spec.sidecar {
        args.sidecar_repo =
        match RepoRef::parse(x.repo_full_name.as_str()) {
            Ok(repo) => Some(repo),
            Err(_) => None,
        };
        args.sidecar_git_workdir = Some(x.workdir.clone());
        args.sidecar_git_remote = Some(x.git_remote.clone());
        args.sidecar_git_base = Some(x.git_base.clone());
        args.sidecar_git_branch = Some(x.git_branch.clone());
        args.sidecar_principal_workdir = clone_opt(&x.principal_workdir);
    }
    Ok(args)
}

/// The line that tells that the lock could not be removed.
pub fn lock_cleanup_failure(lock_path: &str, error: &str) -> (r: String)
    ensures
        r@ == "orchd: lock cleanup failed for "@ + lock_path@ + ": "@ + error@,
{
    cat4("orchd: lock cleanup failed for ", lock_path, ": ", error)
}

/// What a run reports of itself is what its finalizing understands.
pub proof fn law_runs_finalize_as_they_ended(
    a: FinalizeDispatchArgs,
    spec: DispatchExecSpecV1,
    exit_code: i64,
    session: Option<Seq<char>>,
)
    requires
        finalizes_run(a, spec, status_of(exit_code), exit_code, session),
    ensures
        reported(a.status@) == Some(status_of(exit_code)),
{
    law_reported_status_reads_back(status_of(exit_code));
}

/// What a run needs to know is held to its rules: the version, a dispatch, a directive, a role and an issue.
pub proof fn law_runs_know_what_they_need(spec: DispatchExecSpecV1)
    ensures
        spec.wrong() is None <==> spec.version == 1 && spec.dispatch_id > 0 && trim(
            spec.directive@,
        ).len() > 0 && trim(spec.role_name@).len() > 0 && issue_parts(spec.issue_ref@) is Some,
{
}

/// The agent is called under the time limit, as its role, in its sandbox and its directory, and resumes a
/// session exactly where that is asked for and there is one.
pub proof fn law_agents_are_called_as_specified(spec: DispatchExecSpecV1)
    ensures
        ({
            let fresh = agent_args(spec, CodexRunMode::Fresh);
            let resume = agent_args(spec, CodexRunMode::Resume);
            &&& fresh[0] == decimal(spec.timeout_sec as nat)
            &&& fresh[1] == spec.codex_bin@
            &&& fresh[2] == spec.codex_role_arg@
            &&& fresh[3] == "--sandbox"@
            &&& fresh[4] == spec.codex_sandbox.word()
            &&& fresh[5] == "--cd"@
            &&& fresh[6] == spec.workdir@
            &&& fresh[9] == "-o"@
            &&& fresh[10] == spec.last_message_path@
            &&& fresh.last() == "-"@
            &&& fresh.len() == 12
            &&& resume.take(11) == fresh.take(11)
            &&& spec.issue_session_id matches Some(id) ==> resume.skip(11) == seq![
                "resume"@,
                id.0@,
                "-"@,
            ]
            &&& spec.issue_session_id is None ==> resume == fresh
        }),
{
    let fresh = agent_args(spec, CodexRunMode::Fresh);
    let resume = agent_args(spec, CodexRunMode::Resume);
    assert(resume.take(11) =~= fresh.take(11));
    if let Some(id) = spec.issue_session_id {
        assert(resume.skip(11) =~= seq!["resume"@, id.0@, "-"@]);
    }
}

/// Only directives that change something may write; every one that reads is held to reading.
pub proof fn law_readers_do_not_write(d: Seq<char>)
    ensures
        reads_only(d) <==> d == "design"@ || d == "investigate"@ || d == "reply"@ || d == "audit"@ || d
            == "audit-failure"@,
{
}

/// The session of a log is that of its last line which names one.
pub proof fn law_the_last_session_counts(log: Seq<Seq<char>>, line: Seq<char>)
    ensures
        log_session(log.push(line)) == (if line_session(line) is Some {
            line_session(line)
        } else {
            log_session(log)
        }),
        log_session(Seq::empty()) is None,
        line_session(line) matches Some(id) ==> "session id: "@.is_prefix_of(line) && id == trim(
            line.skip("session id: "@.len() as int),
        ) && id_fault(id) is None,
        "session id: "@.is_prefix_of(line) && id_fault(trim(line.skip("session id: "@.len() as int)))
            is None ==> line_session(line) is Some,
{
    assert(log.push(line).drop_last() =~= log);
}

/// The summary of a run is its last message, cut to a hundred and twenty lines, or says that there is none.
pub proof fn law_summaries_are_cut(message: Seq<char>)
    ensures
        summary(None) == "(no final assistant message)\n"@,
        lines(message).len() == 0 ==> summary(Some(message)) == "(no final assistant message)\n"@,
        0 < lines(message).len() <= 120 ==> summary(Some(message)) == ended(lines(message)),
        lines(message).len() > 120 ==> summary(Some(message)) == ended(lines(message).take(120)),
{
    reveal_strlit("\n");
    let cut = head_lines(lines(message));
    if lines(message).len() == 0 {
        assert(ended(cut).len() == 0);
    } else {
        assert(cut.len() > 0);
        assert(ended(cut).len() >= 1);
    }
}

/// The session file that is taken is the last in the order of their paths.
pub proof fn law_the_latest_session_file_is_taken(paths: Seq<Seq<char>>)
    ensures
        latest(paths) is None <==> paths.len() == 0,
        latest(paths) matches Some(p) ==> paths.contains(p) && forall|k: int|
            0 <= k < paths.len() ==> !text_lt(p, #[trigger] paths[k]),
    decreases paths.len(),
{
    if paths.len() > 0 {
        let t = paths.drop_last();
        law_the_latest_session_file_is_taken(t);
        let p = latest(paths)->0;
        crate::names::lemma_text_lt_irreflexive(p);
        if let Some(q) = latest(t) {
            if p == q && t.contains(q) {
                let k = choose|k: int| 0 <= k < t.len() && t[k] == q;
                assert(paths[k] == q);
            }
            assert forall|k: int| 0 <= k < paths.len() implies !text_lt(p, #[trigger] paths[k]) by {
                if k < t.len() {
                    assert(t[k] == paths[k]);
                    crate::names::lemma_text_lt_total(paths.last(), q);
                    if text_lt(p, paths[k]) && p != q {
                        if text_lt(q, paths.last()) {
                            crate::names::lemma_text_lt_transitive(q, paths.last(), paths[k]);
                        }
                    }
                } else if p == q && text_lt(q, paths.last()) {
                    crate::names::lemma_text_lt_transitive(q, paths.last(), q);
                    crate::names::lemma_text_lt_irreflexive(q);
                }
            }
        }
        assert(paths[paths.len() - 1] == paths.last());
    }
}

/// A dispatch is finalized with the token of the control plane where there is one, with what the run
/// reported, and with what it was to land.
pub proof fn law_runs_are_finalized_as_specified(
    a: FinalizeDispatchArgs,
    spec: DispatchExecSpecV1,
    status: ReportedStatus,
    exit_code: i64,
    session: Option<Seq<char>>,
)
    requires
        finalizes_run(a, spec, status, exit_code, session),
    ensures
        spec.control_token_file matches Some(t) ==> a.token_file@ == t@,
        spec.control_token_file is None ==> a.token_file@ == spec.token_file@,
        a.status@ == (match status {
            ReportedStatus::Completed => "completed"@,
            ReportedStatus::TimedOut => "timed_out"@,
            ReportedStatus::FailedRuntime => "failed_runtime"@,
        }),
        a.reason_code@ == (match status {
            ReportedStatus::Completed => "completed"@,
            ReportedStatus::TimedOut => "timeout"@,
            ReportedStatus::FailedRuntime => "codex_exit_nonzero"@,
        }),
        a.dispatch_id == spec.dispatch_id,
        a.exit_code == exit_code,
        a.git_branch@ == spec.git_branch@,
        a.git_base@ == spec.git_base@,
        a.git_remote@ == spec.git_remote@,
        a.git_workdir@ == spec.workdir@,
        a.directive@ == spec.directive@,
        a.role_name@ == spec.role_name@,
        session matches Some(id) ==> a.session_id@ == id,
        spec.sidecar is None <==> a.sidecar_repo is None && a.sidecar_git_workdir is None,
        spec.sidecar matches Some(x) ==> opt_view(a.sidecar_git_branch) == Some(x.git_branch@)
            && opt_view(a.sidecar_git_base) == Some(x.git_base@) && opt_view(a.sidecar_git_workdir)
            == Some(x.workdir@),
{
}

/// The session of a file of sessions is told by the end of its name, without the ending of such files; no
/// other file is one.
pub proof fn law_session_files_are_named_after_their_session(base: Seq<char>, name: Seq<char>)
    ensures
        session_base(base + ".jsonl"@) == Some(base),
        session_base(name) matches Some(b) ==> name == b + ".jsonl"@,
        session_base(name) is None <==> !".jsonl"@.is_suffix_of(name),
        id_tail(base).is_suffix_of(base),
        byte_len(id_tail(base)) <= 36,
{
    let e = ".jsonl"@;
    let t = base + e;
    assert(t.subrange(t.len() - e.len(), t.len() as int) =~= e);
    assert(t.take(t.len() - e.len()) =~= base);
    if e.is_suffix_of(name) {
        assert(name =~= name.take(name.len() - e.len()) + e);
    }
    crate::text::law_fit_is_the_most(base.reverse(), 36);
    let n = crate::text::fit_back(base, 36);
    let k = base.len() - n;
    assert(base.skip(k) =~= base.subrange(base.len() - id_tail(base).len(), base.len() as int));
    assert(base.skip(k).reverse() =~= base.reverse().take(n as int));
    crate::text::lemma_byte_len_reverse(base.skip(k));
}

/// A program that ended by itself has its own code, one that a signal ended a code above that of any other
/// end, and one of which nothing is known has failed.
pub proof fn law_ends_have_their_codes(code: i32, signal: i32)
    ensures
        end_code(Some(code), Some(signal)) == code,
        end_code(Some(code), None) == code,
        end_code(None, Some(signal)) == 128 + signal,
        end_code(None, None) == 1,
{
}

/// A finalizing that failed is tried again, each time after a longer pause, and given up after the last
/// attempt.
pub proof fn law_finalizing_is_tried_again(attempt: u64)
    requires
        1 <= attempt <= FINALIZE_ATTEMPTS,
    ensures
        retry_after(attempt) is None <==> attempt == FINALIZE_ATTEMPTS,
        retry_after(attempt) matches Some(t) ==> t == 2 * attempt,
{
}

/// An id of a session is valid exactly where it has thirty-six characters, hexadecimal digits in five groups
/// with hyphens between them.
pub proof fn law_session_ids_are_hexadecimal_groups(v: Seq<char>)
    ensures
        id_fault(v) is None <==> v.len() > 0 && byte_len(v) == 36 && forall|i: int|
            0 <= i < v.len() ==> if i == 8 || i == 13 || i == 18 || i == 23 {
                #[trigger] v[i] == '-'
            } else {
                ('0' <= v[i] <= '9') || ('a' <= v[i] <= 'f') || ('A' <= v[i] <= 'F')
            },
{
    lemma_id_from(v, 0);
}

/// An id is valid from a place on where each of its characters is.
proof fn lemma_id_from(v: Seq<char>, i: int)
    requires
        0 <= i,
    ensures
        id_fault_from(v, i) is None <==> forall|k: int|
            i <= k < v.len() ==> if k == 8 || k == 13 || k == 18 || k == 23 {
                #[trigger] v[k] == '-'
            } else {
                ('0' <= v[k] <= '9') || ('a' <= v[k] <= 'f') || ('A' <= v[k] <= 'F')
            },
    decreases v.len() - i,
{
    if i < v.len() {
        lemma_id_from(v, i + 1);
        let good = if i == 8 || i == 13 || i == 18 || i == 23 {
            v[i] == '-'
        } else {
            ('0' <= v[i] <= '9') || ('a' <= v[i] <= 'f') || ('A' <= v[i] <= 'F')
        };
        assert(id_fault_from(v, i) is None <==> good && id_fault_from(v, i + 1) is None);
    }
}

/// A run completed where its code is none, timed out where it is that of the time limit, and failed
/// otherwise.
pub proof fn law_statuses_go_by_the_code(code: i64)
    ensures
        status_of(code) == ReportedStatus::Completed <==> code == 0,
        status_of(code) == ReportedStatus::TimedOut <==> code == 124,
        status_of(code) == ReportedStatus::FailedRuntime <==> code != 0 && code != 124,
{
}

} // verus!
