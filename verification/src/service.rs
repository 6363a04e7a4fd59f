//! The service: where it listens for events, which repositories report them, and what waits to be
//! dispatched.

use crate::cli::DispatchMode;
use crate::finalize::{DispatchEventKind, FinalizeDispatchArgs};
use crate::text::{
    blank, cat2, cat3, cat4, cat5, cat6, clone_opt, decimal, opt_is, opt_view, str_blank, str_eq,
    str_trim, texts, trim, u64_text, views,
};
use crate::types::{DispatchState, OrchdRuntimeState};
use vstd::prelude::*;
use vstd::string::*;

verus! {

/// How many decisions one pass over the queue takes.
pub const QUEUE_PASS_LIMIT: u32 = 10;

/// Where the forge sends events.
pub open spec fn hook_address(ip: Seq<char>, unspecified: bool, port: u16) -> Seq<char> {
    "http://"@ + (if unspecified {
        "127.0.0.1"@
    } else {
        ip
    }) + ":"@ + decimal(port as nat) + "/webhook"@
}

/// Where the forge sends events: the address that the service listens on, or this machine where it
/// listens on all.
pub fn webhook_url(ip: &str, unspecified: bool, port: u16) -> (r: String)
    ensures
        r@ == hook_address(ip@, unspecified, port),
        r@ == "http://"@ + (if unspecified {
            "127.0.0.1"@
        } else {
            ip@
        }) + ":"@ + decimal(port as nat) + "/webhook"@,
{
    let host = if unspecified {
        "127.0.0.1"
    } else {
        ip
    };
    let n = u64_text(port as u64);
    cat5("http://", host, ":", n.as_str(), "/webhook")
}

/// A hook of a repository: the URL in its configuration, the one beside it, and whether it is active.
pub struct RepoHook {
    pub config_url: Option<String>,
    pub url: Option<String>,
    pub active: Option<bool>,
}

/// The URL of a hook: that of its configuration, or the one beside it.
pub open spec fn url_of_hook(h: RepoHook) -> Option<Seq<char>> {
    match opt_view(h.config_url) {
        Some(u) => Some(u),
        None => opt_view(h.url),
    }
}

/// A hook reports to the URL: it is active, which it is where nothing else is said, and has the URL.
pub open spec fn reports_to(h: RepoHook, url: Seq<char>) -> bool {
    h.active != Some(false) && url_of_hook(h) == Some(url)
}

/// Tells whether a hook is active.
pub fn hook_is_active(hook: &RepoHook) -> (r: bool)
    ensures
        r == (hook.active != Some(false)),
{
    match hook.active {
        Some(b) => b,
        None => true,
    }
}

/// Tells whether a hook has the URL.
pub fn hook_has_url(hook: &RepoHook, url: &str) -> (r: bool)
    ensures
        r == (url_of_hook(*hook) == Some(url@)),
{
    match &hook.config_url {
        Some(_) => opt_is(&hook.config_url, url),
        None => opt_is(&hook.url, url),
    }
}

/// Tells whether a repository needs a hook: none of its hooks reports to the URL.
pub fn needs_webhook(hooks: &Vec<RepoHook>, url: &str) -> (r: bool)
    ensures
        r == (forall|i: int| 0 <= i < hooks@.len() ==> !reports_to(#[trigger] hooks@[i], url@)),
{
    let mut i: usize = 0;
    while i < hooks.len()
        invariant
            i <= hooks@.len(),
            forall|k: int| 0 <= k < i ==> !reports_to(#[trigger] hooks@[k], url@),
        decreases hooks.len() - i,
    {
        if hook_is_active(&hooks[i]) && hook_has_url(&hooks[i], url) {
            return false;
        }
        i = i + 1;
    }
    true
}

/// What is done about a decision that waits.
#[derive(Clone, Copy, PartialEq, Eq, Structural, Debug)]
pub enum QueueStep {
    /// Another dispatch of the repository is under way.
    RepoBusy(i64),
    /// The decision has no issue, which ends the pass.
    NoIssue,
    /// The decision is dispatched on the issue.
    Dispatch(u64),
}

/// What is done about a decision that waits: nothing while a dispatch of the repository is under way.
pub open spec fn queue_step(inflight: Option<i64>, issue_number: Option<u64>) -> QueueStep {
    match (inflight, issue_number) {
        (Some(id), _) => QueueStep::RepoBusy(id),
        (None, None) => QueueStep::NoIssue,
        (None, Some(n)) => QueueStep::Dispatch(n),
    }
}

/// What is done about a decision that waits.
pub fn dispatch_queue_step(inflight: Option<i64>, issue_number: Option<u64>) -> (r: QueueStep)
    ensures
        r == queue_step(inflight, issue_number),
        r == (match (inflight, issue_number) {
            (Some(id), _) => QueueStep::RepoBusy(id),
            (None, None) => QueueStep::NoIssue,
            (None, Some(n)) => QueueStep::Dispatch(n),
        }),
{
    match (inflight, issue_number) {
        (Some(id), _) => QueueStep::RepoBusy(id),
        (None, None) => QueueStep::NoIssue,
        (None, Some(n)) => QueueStep::Dispatch(n),
    }
}

/// Whether what waits is dispatched at all: not where decisions are not carried out.
pub fn works_queue_off(mode: DispatchMode) -> (r: bool)
    ensures
        r == (mode == DispatchMode::Exec),
{
    match mode {
        DispatchMode::Exec => true,
        DispatchMode::DryRun => false,
    }
}

/// What follows the try to dispatch a decision that waited.
#[derive(Debug)]
pub enum QueueFollowUp {
    /// The issue shows that work runs, and the role, where one is named, has read up to the event.
    ShowRunning(Option<String>),
    /// The failure is reported, and the pass goes on.
    Report,
}

/// What follows the try to dispatch a decision that waited.
pub fn queue_follow_up(dispatched: bool, target_role: &Option<String>) -> (r: QueueFollowUp)
    ensures
        r == (if dispatched {
            QueueFollowUp::ShowRunning(*target_role)
        } else {
            QueueFollowUp::Report
        }),
{
    if dispatched {
        QueueFollowUp::ShowRunning(clone_opt(target_role))
    } else {
        QueueFollowUp::Report
    }
}

/// How a dispatch of the reported status ends.
pub open spec fn terminal_of(status: Seq<char>) -> Option<
    (DispatchEventKind, OrchdRuntimeState, DispatchState),
> {
    if status == "completed"@ {
        Some((DispatchEventKind::Complete, OrchdRuntimeState::Completed, DispatchState::Completed))
    } else if status == "timed_out"@ {
        Some((DispatchEventKind::Timeout, OrchdRuntimeState::Failed, DispatchState::TimedOut))
    } else if status == "failed_runtime"@ || status == "stopped_no_final_answer"@ {
        Some((DispatchEventKind::FailRuntime, OrchdRuntimeState::Failed, DispatchState::FailedRuntime))
    } else {
        None
    }
}

/// How a dispatch of the reported status ends.
pub fn parse_terminal_status_spec(status: &str) -> (r: Result<
    (DispatchEventKind, OrchdRuntimeState, DispatchState),
    String,
>)
    ensures
        match terminal_of(status@) {
            Some(t) => r == Ok::<(DispatchEventKind, OrchdRuntimeState, DispatchState), String>(t),
            None => r matches Err(e) && e@ == "unsupported finalize status '"@ + status@ + "'"@,
        },
{
    if str_eq(status, "completed") {
        Ok((DispatchEventKind::Complete, OrchdRuntimeState::Completed, DispatchState::Completed))
    } else if str_eq(status, "timed_out") {
        Ok((DispatchEventKind::Timeout, OrchdRuntimeState::Failed, DispatchState::TimedOut))
    } else if str_eq(status, "failed_runtime") || str_eq(status, "stopped_no_final_answer") {
        Ok((DispatchEventKind::FailRuntime, OrchdRuntimeState::Failed, DispatchState::FailedRuntime))
    } else {
        Err(cat3("unsupported finalize status '", status, "'"))
    }
}

/// The arguments with which a branch is pushed, and what is said of it.
pub fn push_branch(head: &str, remote: &str, branch: &str) -> (r: (Vec<String>, String))
    ensures
        views(r.0@) == seq!["push"@, "-u"@, remote@, "HEAD:"@ + branch@],
        r.1@ == "pushed branch: "@ + head@ + " -> "@ + remote@ + "/"@ + branch@,
{
    let target = cat2("HEAD:", branch);
    let a = ["push", "-u", remote, target.as_str()];
    let list = texts(&a);
    proof {
        assert(views(list@) =~= seq!["push"@, "-u"@, remote@, "HEAD:"@ + branch@]);
    }
    (list, cat6("pushed branch: ", head, " -> ", remote, "/", branch))
}

/// The arguments with which work is pushed onto the base branch, and what is said of it.
pub fn autoland_to_main(head: &str, remote: &str, base_branch: &str) -> (r: (Vec<String>, String))
    ensures
        views(r.0@) == seq!["push"@, remote@, "HEAD:"@ + base_branch@],
        r.1@ == "autoland: pushed "@ + head@ + " -> "@ + remote@ + "/"@ + base_branch@,
{
    let target = cat2("HEAD:", base_branch);
    let a = ["push", remote, target.as_str()];
    let list = texts(&a);
    proof {
        assert(views(list@) =~= seq!["push"@, remote@, "HEAD:"@ + base_branch@]);
    }
    (list, cat6("autoland: pushed ", head, " -> ", remote, "/", base_branch))
}

/// The pull request for the work of a dispatch. Its branch is named by itself, and else with its owner.
#[verifier::ext_equal]
pub struct DispatchPull<S> {
    pub title: S,
    pub body: S,
    pub base: S,
    pub head: S,
    pub owned_head: S,
}

/// The pull request for the work of a dispatch.
pub fn create_pull_request_for_dispatch(args: &FinalizeDispatchArgs) -> (r: Result<
    DispatchPull<String>,
    String,
>)
    ensures
        match r {
            Ok(p) => {
                &&& args.forgejo_config is Some
                &&& !blank(args.git_branch@)
                &&& !blank(args.git_base@)
                &&& p.title@ == args.issue_title@
                &&& p.body@ == "Refs: "@ + args.issue_url@ + "\n\nIssue: "@ + args.issue_ref.full()
                    + "\n"@
                &&& p.base@ == trim(args.git_base@)
                &&& p.head@ == trim(args.git_branch@)
                &&& p.owned_head@ == args.issue_ref.repo.owner@ + ":"@ + trim(args.git_branch@)
            },
            Err(e) => if args.forgejo_config is None {
                e@ == "missing --forgejo-config; cannot create pull request"@
            } else if blank(args.git_branch@) {
                e@ == "missing git branch; cannot create pull request"@
            } else {
                blank(args.git_base@) && e@ == "missing base branch; cannot create pull request"@
            },
        },
{
    if args.forgejo_config.is_none() {
        return Err("missing --forgejo-config; cannot create pull request".to_owned());
    }
    if str_blank(args.git_branch.as_str()) {
        return Err("missing git branch; cannot create pull request".to_owned());
    }
    if str_blank(args.git_base.as_str()) {
        return Err("missing base branch; cannot create pull request".to_owned());
    }
    let head = str_trim(args.git_branch.as_str());
    let issue = args.issue_ref.text();
    Ok(
        DispatchPull {
            title: args.issue_title.clone(),
            body: cat5("Refs: ", args.issue_url.as_str(), "\n\nIssue: ", issue.as_str(), "\n"),
            base: str_trim(args.git_base.as_str()).to_owned(),
            head: head.to_owned(),
            owned_head: cat3(args.issue_ref.repo.owner.as_str(), ":", head),
        },
    )
}

/// Where a pull request that was made is to be seen: its page, or else its place in the interface.
pub fn pull_request_url(html_url: &Option<String>, url: &Option<String>) -> (r: String)
    ensures
        ({
            let said = match (html_url, url) {
                (Some(h), _) => h@,
                (None, Some(u)) => u@,
                (None, None) => Seq::<char>::empty(),
            };
            r@ == (if said.len() == 0 {
                "(pull request created; URL missing in response)"@
            } else {
                said
            })
        }),
{
    let said = match (html_url, url) {
        (Some(h), _) => h.clone(),
        (None, Some(u)) => u.clone(),
        (None, None) => String::new(),
    };
    if said.as_str().is_empty() {
        "(pull request created; URL missing in response)".to_owned()
    } else {
        said
    }
}

/// The name under which a worker claims deploys.
pub open spec fn worker_name(set: Option<Seq<char>>, host: Option<Seq<char>>, pid: u32) -> Seq<char> {
    match set {
        Some(name) => name,
        None => "deployd:"@ + (match host {
            Some(h) => h,
            None => "localhost"@,
        }) + ":pid-"@ + decimal(pid as nat),
    }
}

/// The name under which a worker claims deploys: as set, or by its host and process.
pub fn worker_identity(set: &Option<String>, host: &Option<String>, pid: u32) -> (r: String)
    ensures
        r@ == worker_name(opt_view(*set), opt_view(*host), pid),
        r@ == (match opt_view(*set) {
            Some(name) => name,
            None => "deployd:"@ + (match opt_view(*host) {
                Some(h) => h,
                None => "localhost"@,
            }) + ":pid-"@ + decimal(pid as nat),
        }),
{
    match set {
        Some(name) => name.clone(),
        None => {
            let h = match host {
                Some(h) => h.as_str(),
                None => "localhost",
            };
            let n = u64_text(pid as u64);
            cat4("deployd:", h, ":pid-", n.as_str())
        },
    }
}

/// The pause between two passes of a loop, in seconds.
pub open spec fn pause(configured: u64) -> u64 {
    if configured < 1 {
        1
    } else {
        configured
    }
}

/// The pause between two passes of a loop, in seconds: at least one.
pub fn pass_interval(configured: u64) -> (r: u64)
    ensures
        r == pause(configured),
        r == (if configured < 1 {
            1u64
        } else {
            configured
        }),
{
    if configured < 1 {
        1
    } else {
        configured
    }
}

/// The state that the ledger reaches on how a dispatch ends is the one that was reported.
pub proof fn law_reported_ends_are_reached(status: Seq<char>, s: DispatchState)
    requires
        s.in_flight(),
    ensures
        terminal_of(status) matches Some(t) ==> crate::ledger::next_state(s, t.0) == Some(t.2),
{
}

/// A dispatch ends as it was reported: completed, timed out or failed; nothing else ends one.
pub proof fn law_reported_ends_are_told_apart(status: Seq<char>)
    ensures
        terminal_of(status) is Some <==> status == "completed"@ || status == "timed_out"@ || status
            == "failed_runtime"@ || status == "stopped_no_final_answer"@,
        terminal_of(status) matches Some(t) ==> {
            &&& t.2 == DispatchState::Completed <==> status == "completed"@
            &&& t.1 == OrchdRuntimeState::Completed <==> status == "completed"@
            &&& t.0 == DispatchEventKind::Complete <==> status == "completed"@
            &&& t.2 == DispatchState::TimedOut <==> status == "timed_out"@
            &&& t.0 == DispatchEventKind::Timeout <==> status == "timed_out"@
            &&& t.2 == DispatchState::FailedRuntime <==> (status == "failed_runtime"@ || status
                == "stopped_no_final_answer"@)
            &&& t.0 == DispatchEventKind::FailRuntime <==> (status == "failed_runtime"@ || status
                == "stopped_no_final_answer"@)
            &&& t.1 == OrchdRuntimeState::Failed <==> status != "completed"@
        },
{
    reveal_strlit("completed");
    reveal_strlit("timed_out");
    reveal_strlit("failed_runtime");
    reveal_strlit("stopped_no_final_answer");
    assert("completed"@.len() == 9 && "timed_out"@.len() == 9 && "failed_runtime"@.len() == 14
        && "stopped_no_final_answer"@.len() == 23);
    assert("completed"@[0] == 'c' && "timed_out"@[0] == 't');
}

/// A hook reports to the URL of its configuration, or to the one beside it where it has none, and not at
/// all where it is switched off.
pub proof fn law_hooks_report_where_they_are_set_to(h: RepoHook, url: Seq<char>)
    ensures
        h.active == Some(false) ==> !reports_to(h, url),
        h.active != Some(false) && h.config_url is Some ==> (reports_to(h, url) <==> h.config_url->0@
            == url),
        h.active != Some(false) && h.config_url is None ==> (reports_to(h, url) <==> (h.url is Some
            && h.url->0@ == url)),
{
}

/// A decision that waits is dispatched exactly where no dispatch of its repository is under way and it has
/// an issue.
pub proof fn law_queued_decisions_wait_for_the_repository(inflight: Option<i64>, issue: Option<u64>)
    ensures
        queue_step(inflight, issue) is Dispatch <==> inflight is None && issue is Some,
        queue_step(inflight, issue) is RepoBusy <==> inflight is Some,
        inflight matches Some(id) ==> queue_step(inflight, issue) == QueueStep::RepoBusy(id),
        inflight is None ==> (issue matches Some(n) ==> queue_step(inflight, issue)
            == QueueStep::Dispatch(n)),
{
}

/// A loop pauses as long as it is set to, and at least a second.
pub proof fn law_pauses_are_a_second_at_least(configured: u64)
    ensures
        pause(configured) >= 1,
        configured >= 1 ==> pause(configured) == configured,
        pause(0) == 1,
{
}

/// The forge reports to the address that the service listens on, or to this machine where it listens on
/// all; a worker has the name that is set, or that of its host and process.
pub proof fn law_services_are_named_by_where_they_run(
    ip: Seq<char>,
    port: u16,
    name: Seq<char>,
    host: Seq<char>,
    pid: u32,
)
    ensures
        hook_address(ip, false, port) == "http://"@ + ip + ":"@ + decimal(port as nat) + "/webhook"@,
        hook_address(ip, true, port) == hook_address("127.0.0.1"@, false, port),
        worker_name(Some(name), Some(host), pid) == name,
        worker_name(Some(name), None, pid) == name,
        worker_name(None, Some(host), pid) == "deployd:"@ + host + ":pid-"@ + decimal(pid as nat),
        worker_name(None, None, pid) == worker_name(None, Some("localhost"@), pid),
{
}

} // verus!
