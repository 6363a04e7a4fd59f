//! What a run of a dispatch is given: its prompt, and what the runner needs to know.

use crate::admission::{fault, Fault};
use crate::cli::{DispatchMode, PromptMode};
use crate::envelopes::DispatchPromptEnvelopeConfig;
use crate::errors::DispatchError;
use crate::lexicon::{EVENT_ISSUES, EVENT_ISSUE_COMMENT};
use crate::paths::{join_path, joined, text_result};
use crate::planning::{principal_workdir, Planning};
use crate::rank_acl::DispatchRankAclConfig;
use crate::runner::{
    codex_sandbox_for_directive, id_fault, reads_only, CodexSandbox, CodexSessionId,
    DispatchExecSidecarV1, DispatchExecSpecV1, SPEC_VERSION_V1,
};
use crate::template::{pairs, render_prompt, rendered};
use crate::text::{
    blank, cat2, cat3, cat4, cat6, clone_opt, decimal, opt_view, str_blank, str_eq, trim,
    u64_text,
};
use crate::types::{law_issue_ref_reads_back, plain_part, repo_parts, repo_text, RepoRef};
use vstd::prelude::*;
use vstd::string::*;

verus! {

/// The view of a result with a dispatch error.
pub open spec fn outcome(r: Result<String, DispatchError>) -> Result<Seq<char>, Fault> {
    match r {
        Ok(t) => Ok(t@),
        Err(e) => Err(fault(e)),
    }
}

/// A failure to read a file.
pub open spec fn unread(what: Seq<char>, error: Seq<char>) -> Fault {
    ("io_failure"@, "io failure: "@ + (what + ": "@ + error))
}

/// A template with its values.
pub open spec fn filled(template: Seq<char>, values: Seq<(Seq<char>, Seq<char>)>) -> Result<
    Seq<char>,
    Fault,
> {
    match rendered(template, values) {
        Ok(t) => Ok(t),
        Err(m) => Err(("prompt_template_error"@, "prompt template failure: "@ + m)),
    }
}

/// A template file with its values, where it was read.
pub open spec fn filled_file(
    file: Result<Seq<char>, Seq<char>>,
    what: Seq<char>,
    values: Seq<(Seq<char>, Seq<char>)>,
) -> Result<Seq<char>, Fault> {
    match file {
        Ok(t) => filled(t, values),
        Err(e) => Err(unread(what, e)),
    }
}

/// What a template file is called where it cannot be read.
pub open spec fn file_name(label: Seq<char>, path: Seq<char>) -> Seq<char> {
    "failed reading "@ + label + " template "@ + path
}

/// Renders a template file, where it was read.
pub fn render_prompt_file(
    path: &str,
    file: &Result<String, String>,
    values: &[(&str, &str)],
    label: &str,
) -> (r: Result<String, DispatchError>)
    ensures
        outcome(r) == filled_file(text_result(*file), file_name(label@, path@), pairs(values@)),
{
    match file {
        Ok(t) => render_prompt(t.as_str(), values),
        Err(e) => Err(
            DispatchError::Io(
                cat6("failed reading ", label, " template ", path, ": ", e.as_str()),
            ),
        ),
    }
}

/// The preamble of a fresh prompt: it carries the card of the role and what its rank allows.
pub open spec fn preamble_of(
    preamble_file: Seq<char>,
    card_file: Seq<char>,
    role: Seq<char>,
    acl: Seq<char>,
    preamble: Result<Seq<char>, Seq<char>>,
    card: Result<Seq<char>, Seq<char>>,
) -> Result<Seq<char>, Fault> {
    match preamble {
        Err(e) => Err(unread("failed reading prompt preamble "@ + preamble_file, e)),
        Ok(t) => match card {
            Err(e) => Err(
                unread("failed reading role card "@ + card_file + " for role "@ + role, e),
            ),
            Ok(c) => filled(t, seq![("role_card_md"@, c + "\n\n"@ + acl)]),
        },
    }
}

/// The preamble of a fresh prompt.
pub fn render_fresh_preamble(
    prompt_envelopes: &DispatchPromptEnvelopeConfig,
    rank_acl: &DispatchRankAclConfig,
    role_name: &str,
    preamble: &Result<String, String>,
    card: &Result<String, String>,
) -> (r: Result<String, DispatchError>)
    requires
        rank_acl.wf(),
    ensures
        outcome(r) == preamble_of(
            prompt_envelopes.preamble_file@,
            crate::envelopes::card_path(prompt_envelopes.preamble_file@, role_name@),
            role_name@,
            rank_acl.summary(role_name@),
            text_result(*preamble),
            text_result(*card),
        ),
{
    let template = match preamble {
        Ok(t) => t,
        Err(e) => {
            return Err(
                DispatchError::Io(
                    cat4(
                        "failed reading prompt preamble ",
                        prompt_envelopes.preamble_file.as_str(),
                        ": ",
                        e.as_str(),
                    ),
                ),
            );
        },
    };
    let card_file = prompt_envelopes.role_card_file_for(role_name);
    let card_md = match card {
        Ok(t) => t,
        Err(e) => {
            return Err(
                DispatchError::Io(
                    cat6(
                        "failed reading role card ",
                        card_file.as_str(),
                        " for role ",
                        role_name,
                        ": ",
                        e.as_str(),
                    ),
                ),
            );
        },
    };
    let acl = rank_acl.acl_summary_markdown(role_name);
    let whole = cat3(card_md.as_str(), "\n\n", acl.as_str());
    let values = [("role_card_md", whole.as_str())];
    proof {
        assert(pairs(values@) =~= seq![("role_card_md"@, card_md@ + "\n\n"@ + rank_acl.summary(role_name@))]);
    }
    render_prompt(template.as_str(), &values)
}

/// Which turn of a session a prompt is for.
pub open spec fn turn_type(fresh: bool) -> Seq<char> {
    if fresh {
        "first turn in this issue"@
    } else {
        "follow-up turn in an existing issue session"@
    }
}

/// What set a dispatch off.
pub open spec fn trigger_text(event_type: Seq<char>) -> Seq<char> {
    if event_type == EVENT_ISSUE_COMMENT@ {
        "a new issue comment arrived"@
    } else if event_type == EVENT_ISSUES@ {
        "an issue event triggered dispatch"@
    } else {
        "a Forgejo webhook event triggered dispatch"@
    }
}

/// The part of a prompt that tells of the turn.
pub fn render_dispatch_md(
    turn_context_file: &str,
    file: &Result<String, String>,
    actor: &str,
    principal: &str,
    issue_ref: &str,
    event_type: &str,
    fresh: bool,
) -> (r: Result<String, DispatchError>)
    ensures
        outcome(r) == filled_file(
            text_result(*file),
            file_name("turn context"@, turn_context_file@),
            seq![
                ("actor"@, actor@),
                ("principal"@, principal@),
                ("issue_ref"@, issue_ref@),
                ("turn_type"@, turn_type(fresh)),
                ("trigger"@, trigger_text(event_type@)),
            ],
        ),
{
    let turn = if fresh {
        "first turn in this issue"
    } else {
        "follow-up turn in an existing issue session"
    };
    let trigger = if str_eq(event_type, EVENT_ISSUE_COMMENT) {
        "a new issue comment arrived"
    } else if str_eq(event_type, EVENT_ISSUES) {
        "an issue event triggered dispatch"
    } else {
        "a Forgejo webhook event triggered dispatch"
    };
    let values = [
        ("actor", actor),
        ("principal", principal),
        ("issue_ref", issue_ref),
        ("turn_type", turn),
        ("trigger", trigger),
    ];
    proof {
        assert(pairs(values@) =~= seq![
            ("actor"@, actor@),
            ("principal"@, principal@),
            ("issue_ref"@, issue_ref@),
            ("turn_type"@, turn_type(fresh)),
            ("trigger"@, trigger_text(event_type@)),
        ]);
    }
    render_prompt_file(turn_context_file, file, &values, "turn context")
}

/// A text, or what stands for a blank one.
pub open spec fn unless_blank(text: Seq<char>, fallback: Seq<char>) -> Seq<char> {
    if blank(text) {
        fallback
    } else {
        text
    }
}

/// A text, or what stands for a blank one.
fn or_fallback<'a>(text: &'a str, fallback: &'a str) -> (r: &'a str)
    ensures
        r@ == unless_blank(text@, fallback@),
{
    if str_blank(text) {
        fallback
    } else {
        text
    }
}

/// The part of a prompt that tells of the issue.
pub open spec fn issue_part(
    fresh_file: Seq<char>,
    followup_file: Seq<char>,
    file: Result<Seq<char>, Seq<char>>,
    fresh: bool,
    title: Seq<char>,
    body: Seq<char>,
    delta: Seq<char>,
) -> Result<Seq<char>, Fault> {
    if fresh {
        filled_file(
            file,
            file_name("issue fresh"@, fresh_file),
            seq![
                ("issue_title"@, title),
                ("issue_body"@, unless_blank(body, "(empty)"@)),
                ("issue_history"@, unless_blank(delta, "(no prior issue activity captured)"@)),
            ],
        )
    } else {
        filled_file(
            file,
            file_name("issue followup"@, followup_file),
            seq![
                ("issue_title"@, title),
                ("issue_delta"@, unless_blank(delta, "(no new issue activity)"@)),
            ],
        )
    }
}

/// The part of a prompt that tells of the issue: all of it in a fresh prompt, what is new in another.
pub fn render_issue_md(
    issue_fresh_file: &str,
    issue_followup_file: &str,
    file: &Result<String, String>,
    fresh: bool,
    title: &str,
    body: &str,
    delta: &str,
) -> (r: Result<String, DispatchError>)
    ensures
        outcome(r) == issue_part(
            issue_fresh_file@,
            issue_followup_file@,
            text_result(*file),
            fresh,
            title@,
            body@,
            delta@,
        ),
{
    if fresh {
        let values = [
            ("issue_title", title),
            ("issue_body", or_fallback(body, "(empty)")),
            ("issue_history", or_fallback(delta, "(no prior issue activity captured)")),
        ];
        proof {
            assert(pairs(values@) =~= seq![
                ("issue_title"@, title@),
                ("issue_body"@, unless_blank(body@, "(empty)"@)),
                ("issue_history"@, unless_blank(delta@, "(no prior issue activity captured)"@)),
            ]);
        }
        render_prompt_file(issue_fresh_file, file, &values, "issue fresh")
    } else {
        let values = [
            ("issue_title", title),
            ("issue_delta", or_fallback(delta, "(no new issue activity)")),
        ];
        proof {
            assert(pairs(values@) =~= seq![
                ("issue_title"@, title@),
                ("issue_delta"@, unless_blank(delta@, "(no new issue activity)"@)),
            ]);
        }
        render_prompt_file(issue_followup_file, file, &values, "issue followup")
    }
}

/// The files that a prompt is made of, as far as they were read.
pub struct PromptFiles {
    pub orders: Result<String, String>,
    pub preamble: Result<String, String>,
    pub role_card: Result<String, String>,
    pub turn_context: Result<String, String>,
    pub issue: Result<String, String>,
    pub envelope: Result<String, String>,
}

/// The plan is for a new session.
pub open spec fn is_fresh(plan: Planning<String>) -> bool {
    plan.session is None
}

/// The issue of a plan.
pub open spec fn plan_issue(plan: Planning<String>) -> Seq<char> {
    plan.admission.repo@ + "#"@ + decimal(plan.admission.issue_number as nat)
}

/// The issue of a plan as a prompt names it: by the repository as it was read.
pub open spec fn named_issue(plan: Planning<String>) -> Seq<char> {
    (match repo_parts(plan.admission.repo@) {
        Some(p) => repo_text(p.0, p.1),
        None => plan.admission.repo@,
    }) + "#"@ + decimal(plan.admission.issue_number as nat)
}

/// The envelope of a plan.
pub open spec fn envelope_of(e: DispatchPromptEnvelopeConfig, fresh: bool) -> Seq<char> {
    if fresh {
        e.fresh_envelope@
    } else {
        e.followup_envelope@
    }
}

/// The parts of a prompt in its envelope.
pub open spec fn enveloped(
    envelope_file: Seq<char>,
    envelope: Result<Seq<char>, Seq<char>>,
    preamble: Seq<char>,
    dispatch: Seq<char>,
    reading: Seq<char>,
    issue: Seq<char>,
    orders: Seq<char>,
) -> Result<Seq<char>, Fault> {
    match envelope {
        Err(e) => Err(unread("failed reading prompt envelope "@ + envelope_file, e)),
        Ok(t) => filled(
            t,
            seq![
                ("preamble_md"@, preamble),
                ("dispatch_md"@, dispatch),
                ("reading_material_md"@, reading),
                ("issue_md"@, issue),
                ("orders_md"@, orders),
            ],
        ),
    }
}

/// The prompt of a plan, or the first thing that is wrong with it.
pub open spec fn prompt_of(
    e: DispatchPromptEnvelopeConfig,
    acl: DispatchRankAclConfig,
    plan: Planning<String>,
    event_type: Seq<char>,
    reading: Seq<char>,
    files: PromptFiles,
) -> Result<Seq<char>, Fault> {
    let fresh = is_fresh(plan);
    let role = plan.admission.role@;
    match text_result(files.orders) {
        Err(m) => Err(unread("failed reading prompt "@ + plan.admission.prompt_file@, m)),
        Ok(orders_template) => match filled(orders_template, Seq::empty()) {
            Err(f) => Err(f),
            Ok(orders) => match (if fresh {
                preamble_of(
                    e.preamble_file@,
                    crate::envelopes::card_path(e.preamble_file@, role),
                    role,
                    acl.summary(role),
                    text_result(files.preamble),
                    text_result(files.role_card),
                )
            } else {
                Ok(Seq::empty())
            }) {
                Err(f) => Err(f),
                Ok(preamble) => match filled_file(
                    text_result(files.turn_context),
                    file_name("turn context"@, e.turn_context_file@),
                    seq![
                        ("actor"@, plan.admission.actor@),
                        ("principal"@, plan.admission.principal@),
                        ("issue_ref"@, named_issue(plan)),
                        ("turn_type"@, turn_type(fresh)),
                        ("trigger"@, trigger_text(event_type)),
                    ],
                ) {
                    Err(f) => Err(f),
                    Ok(dispatch) => match issue_part(
                        e.issue_fresh_file@,
                        e.issue_followup_file@,
                        text_result(files.issue),
                        fresh,
                        plan.title@,
                        plan.body@,
                        plan.delta@,
                    ) {
                        Err(f) => Err(f),
                        Ok(issue) => enveloped(
                            envelope_of(e, fresh),
                            text_result(files.envelope),
                            preamble,
                            dispatch,
                            reading,
                            issue,
                            orders,
                        ),
                    },
                },
            },
        },
    }
}

/// The prompt of a plan.
pub fn compose_prompt(
    prompt_envelopes: &DispatchPromptEnvelopeConfig,
    rank_acl: &DispatchRankAclConfig,
    plan: &Planning<String>,
    event_type: &str,
    reading_material_md: &str,
    files: &PromptFiles,
) -> (r: Result<String, DispatchError>)
    requires
        rank_acl.wf(),
    ensures
        outcome(r) == prompt_of(
            *prompt_envelopes,
            *rank_acl,
            *plan,
            event_type@,
            reading_material_md@,
            *files,
        ),
{
    let orders_template = match &files.orders {
        Ok(t) => t,
        Err(e) => {
            return Err(
                DispatchError::Io(
                    cat4(
                        "failed reading prompt ",
                        plan.admission.prompt_file.as_str(),
                        ": ",
                        e.as_str(),
                    ),
                ),
            );
        },
    };
    let none: [(&str, &str); 0] = [];
    proof {
        assert(pairs(none@) =~= Seq::<(Seq<char>, Seq<char>)>::empty());
    }
    let orders = match render_prompt(orders_template.as_str(), &none) {
        Ok(t) => t,
        Err(e) => {
            return Err(e);
        },
    };
    let fresh = plan.session.is_none();
    let preamble = if fresh {
        match render_fresh_preamble(
            prompt_envelopes,
            rank_acl,
            plan.admission.role.as_str(),
            &files.preamble,
            &files.role_card,
        ) {
            Ok(t) => t,
            Err(e) => {
                return Err(e);
            },
        }
    } else {
        let t = String::new();
        proof {
            assert(t@ =~= Seq::<char>::empty());
        }
        t
    };
    let n = u64_text(plan.admission.issue_number);
    let repo = match RepoRef::parse(plan.admission.repo.as_str()) {
        Ok(repo) => repo.text(),
        Err(_) => plan.admission.repo.clone(),
    };
    let issue_ref = cat3(repo.as_str(), "#", n.as_str());
    let dispatch = match render_dispatch_md(
        prompt_envelopes.turn_context_file.as_str(),
        &files.turn_context,
        plan.admission.actor.as_str(),
        plan.admission.principal.as_str(),
        issue_ref.as_str(),
        event_type,
        fresh,
    ) {
        Ok(t) => t,
        Err(e) => {
            return Err(e);
        },
    };
    let issue = match render_issue_md(
        prompt_envelopes.issue_fresh_file.as_str(),
        prompt_envelopes.issue_followup_file.as_str(),
        &files.issue,
        fresh,
        plan.title.as_str(),
        plan.body.as_str(),
        plan.delta.as_str(),
    ) {
        Ok(t) => t,
        Err(e) => {
            return Err(e);
        },
    };
    let envelope_file = if fresh {
        prompt_envelopes.fresh_envelope.as_str()
    } else {
        prompt_envelopes.followup_envelope.as_str()
    };
    match &files.envelope {
        Err(e) => Err(
            DispatchError::Io(
                cat4("failed reading prompt envelope ", envelope_file, ": ", e.as_str()),
            ),
        ),
        Ok(t) => {
            let values = [
                ("preamble_md", preamble.as_str()),
                ("dispatch_md", dispatch.as_str()),
                ("reading_material_md", reading_material_md),
                ("issue_md", issue.as_str()),
                ("orders_md", orders.as_str()),
            ];
            proof {
                assert(pairs(values@) =~= seq![
                    ("preamble_md"@, preamble@),
                    ("dispatch_md"@, dispatch@),
                    ("reading_material_md"@, reading_material_md@),
                    ("issue_md"@, issue@),
                    ("orders_md"@, orders@),
                ]);
            }
            render_prompt(t.as_str(), &values)
        },
    }
}

/// How much of the conversation a prompt carries on.
pub open spec fn carried_on(session: Option<Seq<char>>) -> PromptMode {
    if session is Some {
        PromptMode::Followup
    } else {
        PromptMode::Fresh
    }
}

/// How much of the conversation the prompt of a plan carries on: one that has no session begins anew.
pub fn prompt_mode(plan: &Planning<String>) -> (r: PromptMode)
    ensures
        r == carried_on(opt_view(plan.session)),
        r == (if plan.session is Some {
            PromptMode::Followup
        } else {
            PromptMode::Fresh
        }),
{
    match &plan.session {
        Some(_) => PromptMode::Followup,
        None => PromptMode::Fresh,
    }
}

/// What else a run needs to know.
pub struct RunSettings {
    pub forgejoctl_bin: String,
    pub forgejo_config_file: Option<String>,
    pub control_token_file: Option<String>,
}

/// The spec runs the plan with the settings.
pub open spec fn runs(s: DispatchExecSpecV1, plan: Planning<String>, set: RunSettings) -> bool {
    let a = plan.admission;
    &&& s.version == SPEC_VERSION_V1
    &&& s.dispatch_id == plan.dispatch_id
    &&& s.db_path@ == plan.db_path@
    &&& s.lock_path@ == plan.lock_path@
    &&& s.run_dir@ == plan.run_dir@
    &&& s.prompt_path@ == joined(plan.run_dir@, "prompt.md"@)
    &&& s.summary_path@ == joined(plan.run_dir@, "summary.md"@)
    &&& s.completion_path@ == joined(plan.run_dir@, "completion.md"@)
    &&& s.last_message_path@ == joined(plan.run_dir@, "last_message.md"@)
    &&& s.codex_log_path@ == joined(plan.run_dir@, "codex.log"@)
    &&& s.marker_path@ == joined(plan.run_dir@, "start.marker"@)
    &&& s.issue_ref@ == plan_issue(plan)
    &&& s.issue_title@ == plan.title@
    &&& s.issue_url@ == plan.url@
    &&& s.forgejoctl_bin@ == set.forgejoctl_bin@
    &&& opt_view(s.forgejo_config_file) == opt_view(set.forgejo_config_file)
    &&& s.token_file@ == a.token_file@
    &&& opt_view(s.control_token_file) == opt_view(set.control_token_file)
    &&& s.workdir@ == plan.workdir@
    &&& opt_view(s.principal_workdir) == (if a.directive@ == crate::lexicon::DIRECTIVE_IMPL@ {
        match a.binding {
            Some(b) => Some(b.local_path@),
            None => None,
        }
    } else {
        None
    })
    &&& s.codex_sandbox == (if reads_only(a.directive@) {
        CodexSandbox::ReadOnly
    } else {
        CodexSandbox::WorkspaceWrite
    })
    &&& s.git_remote@ == plan.git_remote@
    &&& s.git_base@ == plan.git_base@
    &&& s.git_branch@ == plan.git_branch@
    &&& s.codex_bin@ == a.codex_bin@
    &&& s.codex_role_arg@ == a.codex_role_arg@
    &&& opt_view(s.codex_profile) == opt_view(a.codex_profile)
    &&& crate::runner::session_view(s.issue_session_id) == (match opt_view(plan.session) {
        Some(t) => if blank(t) {
            None
        } else {
            Some(trim(t))
        },
        None => None,
    })
    &&& s.directive@ == a.directive@
    &&& s.role_name@ == a.role@
    &&& s.timeout_sec == a.timeout_sec
    &&& sidecar_runs(s.sidecar, plan)
}

/// The sidecar of the run is that of the plan, where the directive changes code.
pub open spec fn sidecar_runs(x: Option<DispatchExecSidecarV1>, plan: Planning<String>) -> bool {
    match (plan.sidecar, plan.admission.directive@ == crate::lexicon::DIRECTIVE_IMPL@) {
        (Some(p), true) => match p.binding {
            Some(b) => x matches Some(s) && s.repo_full_name@ == p.owner@ + "/"@ + p.repo@
                && s.workdir@ == plan.sidecar_dir@ && opt_view(s.principal_workdir) == Some(
                b.local_path@,
            ) && s.git_remote@ == b.git_remote@ && s.git_base@ == b.git_base@ && s.git_branch@
                == plan.sidecar_branch@,
            None => x is None,
        },
        _ => x is None,
    }
}

/// What is wrong with the session of a plan.
pub open spec fn session_fault(plan: Planning<String>) -> Option<Seq<char>> {
    match opt_view(plan.session) {
        Some(t) => if blank(t) {
            None
        } else {
            id_fault(trim(t))
        },
        None => None,
    }
}

/// What a run of the plan needs to know; nothing is run in a dry run.
pub fn materialize_run_artifacts(mode: DispatchMode, plan: &Planning<String>, settings: &RunSettings) -> (r:
    Result<DispatchExecSpecV1, DispatchError>)
    ensures
        match session_fault(*plan) {
            Some(m) => r matches Err(DispatchError::Io(x)) && x@ == "invalid codex session id: "@ + m,
            None => match mode {
                DispatchMode::DryRun => r matches Err(DispatchError::ConfigNotLoaded),
                DispatchMode::Exec => r matches Ok(s) && runs(s, *plan, *settings),
            },
        },
{
    let issue_session_id = match &plan.session {
        Some(t) => if str_blank(t.as_str()) {
            None
        } else {
            match CodexSessionId::parse(t.as_str()) {
                Ok(id) => Some(id),
                Err(e) => {
                    return Err(
                        DispatchError::Io(cat2("invalid codex session id: ", e.as_str())),
                    );
                },
            }
        },
        None => None,
    };
    if let DispatchMode::DryRun = mode {
        return Err(DispatchError::ConfigNotLoaded);
    }
    let a = &plan.admission;
    let n = u64_text(a.issue_number);
    let dir = plan.run_dir.as_str();
    let principal = principal_workdir(plan);
    let sidecar = match (&plan.sidecar, str_eq(a.directive.as_str(), crate::lexicon::DIRECTIVE_IMPL)) {
        (Some(p), true) => match &p.binding {
            Some(b) => Some(
                DispatchExecSidecarV1 {
                    repo_full_name: cat3(p.owner.as_str(), "/", p.repo.as_str()),
                    workdir: plan.sidecar_dir.clone(),
                    principal_workdir: Some(b.local_path.clone()),
                    git_remote: b.git_remote.clone(),
                    git_base: b.git_base.clone(),
                    git_branch: plan.sidecar_branch.clone(),
                },
            ),
            None => None,
        },
        _ => None,
    };
    Ok(
        DispatchExecSpecV1 {
            version: SPEC_VERSION_V1,
            dispatch_id: plan.dispatch_id,
            db_path: plan.db_path.clone(),
            lock_path: plan.lock_path.clone(),
            run_dir: plan.run_dir.clone(),
            prompt_path: join_path(dir, "prompt.md"),
            summary_path: join_path(dir, "summary.md"),
            completion_path: join_path(dir, "completion.md"),
            last_message_path: join_path(dir, "last_message.md"),
            codex_log_path: join_path(dir, "codex.log"),
            marker_path: join_path(dir, "start.marker"),
            issue_ref: cat3(a.repo.as_str(), "#", n.as_str()),
            issue_title: plan.title.clone(),
            issue_url: plan.url.clone(),
            forgejoctl_bin: settings.forgejoctl_bin.clone(),
            forgejo_config_file: clone_opt(&settings.forgejo_config_file),
            token_file: a.token_file.clone(),
            control_token_file: clone_opt(&settings.control_token_file),
            workdir: plan.workdir.clone(),
            principal_workdir: principal,
            sidecar,
            codex_sandbox: codex_sandbox_for_directive(a.directive.as_str()),
            git_remote: plan.git_remote.clone(),
            git_base: plan.git_base.clone(),
            git_branch: plan.git_branch.clone(),
            codex_bin: a.codex_bin.clone(),
            codex_role_arg: a.codex_role_arg.clone(),
            codex_profile: clone_opt(&a.codex_profile),
            issue_session_id,
            directive: a.directive.clone(),
            role_name: a.role.clone(),
            timeout_sec: a.timeout_sec,
        },
    )
}

/// A directive that only reads runs where it cannot write.
pub proof fn law_reading_directives_run_read_only(
    s: DispatchExecSpecV1,
    plan: Planning<String>,
    set: RunSettings,
)
    requires
        runs(s, plan, set),
        reads_only(plan.admission.directive@),
    ensures
        s.codex_sandbox == CodexSandbox::ReadOnly,
{
}

/// What a run is told is what the runner accepts: the spec of a reserved dispatch of a repository is
/// valid.
pub proof fn law_materialized_runs_are_valid(
    s: DispatchExecSpecV1,
    plan: Planning<String>,
    set: RunSettings,
    owner: Seq<char>,
    repo: Seq<char>,
)
    requires
        runs(s, plan, set),
        plan.dispatch_id > 0,
        !blank(plan.admission.directive@),
        !blank(plan.admission.role@),
        plain_part(owner),
        plain_part(repo),
        plan.admission.repo@ == repo_text(owner, repo),
    ensures
        s.wrong() is None,
{
    law_issue_ref_reads_back(owner, repo, plan.admission.issue_number);
}

/// A fresh prompt is its envelope with the preamble, the turn, the reading material, the issue and the
/// orders in their places: the preamble carries the card of the role and what its rank allows, the turn
/// tells who asks for what, and the issue is told with its title, its text and its history.
pub proof fn law_fresh_prompts_tell_everything(
    e: DispatchPromptEnvelopeConfig,
    acl: DispatchRankAclConfig,
    plan: Planning<String>,
    event_type: Seq<char>,
    reading: Seq<char>,
    files: PromptFiles,
    orders: Seq<char>,
    preamble: Seq<char>,
    turn: Seq<char>,
    issue: Seq<char>,
)
    requires
        plan.session is None,
        files.orders is Ok,
        files.preamble is Ok,
        files.role_card is Ok,
        files.turn_context is Ok,
        files.issue is Ok,
        files.envelope is Ok,
        rendered(files.orders->Ok_0@, Seq::empty()) == Ok::<Seq<char>, Seq<char>>(orders),
        rendered(
            files.preamble->Ok_0@,
            seq![
                (
                    "role_card_md"@,
                    files.role_card->Ok_0@ + "\n\n"@ + acl.summary(plan.admission.role@),
                ),
            ],
        ) == Ok::<Seq<char>, Seq<char>>(preamble),
        rendered(
            files.turn_context->Ok_0@,
            seq![
                ("actor"@, plan.admission.actor@),
                ("principal"@, plan.admission.principal@),
                ("issue_ref"@, named_issue(plan)),
                ("turn_type"@, "first turn in this issue"@),
                (
                    "trigger"@,
                    if event_type == "issue_comment"@ {
                        "a new issue comment arrived"@
                    } else if event_type == "issues"@ {
                        "an issue event triggered dispatch"@
                    } else {
                        "a Forgejo webhook event triggered dispatch"@
                    },
                ),
            ],
        ) == Ok::<Seq<char>, Seq<char>>(turn),
        rendered(
            files.issue->Ok_0@,
            seq![
                ("issue_title"@, plan.title@),
                (
                    "issue_body"@,
                    if trim(plan.body@).len() == 0 {
                        "(empty)"@
                    } else {
                        plan.body@
                    },
                ),
                (
                    "issue_history"@,
                    if trim(plan.delta@).len() == 0 {
                        "(no prior issue activity captured)"@
                    } else {
                        plan.delta@
                    },
                ),
            ],
        ) == Ok::<Seq<char>, Seq<char>>(issue),
    ensures
        prompt_of(e, acl, plan, event_type, reading, files) == (match rendered(
            files.envelope->Ok_0@,
            seq![
                ("preamble_md"@, preamble),
                ("dispatch_md"@, turn),
                ("reading_material_md"@, reading),
                ("issue_md"@, issue),
                ("orders_md"@, orders),
            ],
        ) {
            Ok(t) => Ok::<Seq<char>, Fault>(t),
            Err(m) => Err(("prompt_template_error"@, "prompt template failure: "@ + m)),
        }),
{
}

/// The prompt of a session that goes on has no preamble, and tells of the issue its title and what is new.
pub proof fn law_followup_prompts_tell_what_is_new(
    e: DispatchPromptEnvelopeConfig,
    acl: DispatchRankAclConfig,
    plan: Planning<String>,
    event_type: Seq<char>,
    reading: Seq<char>,
    files: PromptFiles,
    orders: Seq<char>,
    turn: Seq<char>,
    issue: Seq<char>,
)
    requires
        plan.session is Some,
        files.orders is Ok,
        files.turn_context is Ok,
        files.issue is Ok,
        files.envelope is Ok,
        rendered(files.orders->Ok_0@, Seq::empty()) == Ok::<Seq<char>, Seq<char>>(orders),
        rendered(
            files.turn_context->Ok_0@,
            seq![
                ("actor"@, plan.admission.actor@),
                ("principal"@, plan.admission.principal@),
                ("issue_ref"@, named_issue(plan)),
                ("turn_type"@, "follow-up turn in an existing issue session"@),
                (
                    "trigger"@,
                    if event_type == "issue_comment"@ {
                        "a new issue comment arrived"@
                    } else if event_type == "issues"@ {
                        "an issue event triggered dispatch"@
                    } else {
                        "a Forgejo webhook event triggered dispatch"@
                    },
                ),
            ],
        ) == Ok::<Seq<char>, Seq<char>>(turn),
        rendered(
            files.issue->Ok_0@,
            seq![
                ("issue_title"@, plan.title@),
                (
                    "issue_delta"@,
                    if trim(plan.delta@).len() == 0 {
                        "(no new issue activity)"@
                    } else {
                        plan.delta@
                    },
                ),
            ],
        ) == Ok::<Seq<char>, Seq<char>>(issue),
    ensures
        prompt_of(e, acl, plan, event_type, reading, files) == (match rendered(
            files.envelope->Ok_0@,
            seq![
                ("preamble_md"@, Seq::<char>::empty()),
                ("dispatch_md"@, turn),
                ("reading_material_md"@, reading),
                ("issue_md"@, issue),
                ("orders_md"@, orders),
            ],
        ) {
            Ok(t) => Ok::<Seq<char>, Fault>(t),
            Err(m) => Err(("prompt_template_error"@, "prompt template failure: "@ + m)),
        }),
{
}

/// There is a prompt only where all the files that it is made of could be read.
pub proof fn law_prompts_need_their_files(
    e: DispatchPromptEnvelopeConfig,
    acl: DispatchRankAclConfig,
    plan: Planning<String>,
    event_type: Seq<char>,
    reading: Seq<char>,
    files: PromptFiles,
)
    ensures
        files.orders is Err || files.turn_context is Err || files.issue is Err || files.envelope is Err
            ==> prompt_of(e, acl, plan, event_type, reading, files) is Err,
        plan.session is None && (files.preamble is Err || files.role_card is Err) ==> prompt_of(
            e,
            acl,
            plan,
            event_type,
            reading,
            files,
        ) is Err,
{
}

/// The issue of a plan is named by its repository and its number.
pub proof fn law_plans_name_their_issue(plan: Planning<String>)
    ensures
        plan_issue(plan) == plan.admission.repo@ + "#"@ + decimal(plan.admission.issue_number as nat),
        repo_parts(plan.admission.repo@) matches Some(p) ==> named_issue(plan) == p.0 + "/"@ + p.1 + "#"@
            + decimal(plan.admission.issue_number as nat),
        repo_parts(plan.admission.repo@) is None ==> named_issue(plan) == plan_issue(plan),
{
}

/// A run keeps its files in its directory, works where the plan says, on the branch, remote and base of the
/// plan, and as its role and under its limits; only one that changes code knows the principal checkout.
pub proof fn law_runs_follow_the_plan(
    s: DispatchExecSpecV1,
    plan: Planning<String>,
    set: RunSettings,
)
    requires
        runs(s, plan, set),
    ensures
        s.version == 1,
        s.dispatch_id == plan.dispatch_id,
        s.run_dir@ == plan.run_dir@,
        s.prompt_path@ == joined(plan.run_dir@, "prompt.md"@),
        s.summary_path@ == joined(plan.run_dir@, "summary.md"@),
        s.completion_path@ == joined(plan.run_dir@, "completion.md"@),
        s.last_message_path@ == joined(plan.run_dir@, "last_message.md"@),
        s.codex_log_path@ == joined(plan.run_dir@, "codex.log"@),
        s.marker_path@ == joined(plan.run_dir@, "start.marker"@),
        s.db_path@ == plan.db_path@,
        s.lock_path@ == plan.lock_path@,
        s.issue_ref@ == plan.admission.repo@ + "#"@ + decimal(plan.admission.issue_number as nat),
        s.issue_title@ == plan.title@,
        s.issue_url@ == plan.url@,
        s.workdir@ == plan.workdir@,
        s.git_remote@ == plan.git_remote@,
        s.git_base@ == plan.git_base@,
        s.git_branch@ == plan.git_branch@,
        s.token_file@ == plan.admission.token_file@,
        opt_view(s.control_token_file) == opt_view(set.control_token_file),
        s.forgejoctl_bin@ == set.forgejoctl_bin@,
        s.codex_bin@ == plan.admission.codex_bin@,
        s.codex_role_arg@ == plan.admission.codex_role_arg@,
        opt_view(s.codex_profile) == opt_view(plan.admission.codex_profile),
        s.directive@ == plan.admission.directive@,
        s.role_name@ == plan.admission.role@,
        s.timeout_sec == plan.admission.timeout_sec,
        plan.admission.directive@ != "impl"@ ==> s.principal_workdir is None && s.sidecar is None,
        plan.admission.directive@ == "impl"@ ==> (s.principal_workdir is Some
            <==> plan.admission.binding is Some),
        plan.admission.directive@ == "impl"@ ==> (plan.admission.binding matches Some(b) ==> opt_view(
            s.principal_workdir,
        ) == Some(b.local_path@)),
        s.codex_sandbox == CodexSandbox::ReadOnly <==> (plan.admission.directive@ == "design"@
            || plan.admission.directive@ == "investigate"@ || plan.admission.directive@ == "reply"@
            || plan.admission.directive@ == "audit"@ || plan.admission.directive@ == "audit-failure"@),
        plan.session is None ==> s.issue_session_id is None,
        opt_view(plan.session) matches Some(t) ==> (trim(t).len() > 0 ==> (s.issue_session_id matches Some(
            id,
        ) && id.0@ == trim(t))),
        plan.sidecar matches Some(p) ==> (p.binding matches Some(b) ==> (plan.admission.directive@
            == "impl"@ ==> (s.sidecar matches Some(x) && x.repo_full_name@ == p.owner@ + "/"@ + p.repo@
            && x.workdir@ == plan.sidecar_dir@ && x.git_branch@ == plan.sidecar_branch@ && x.git_remote@
            == b.git_remote@ && x.git_base@ == b.git_base@))),
{
}

/// A plan can be run where its session, if it has one that is not blank, is a valid one.
pub proof fn law_sessions_of_plans_are_valid(plan: Planning<String>)
    ensures
        plan.session is None ==> session_fault(plan) is None,
        plan.session matches Some(t) ==> (trim(t@).len() == 0 ==> session_fault(plan) is None),
        plan.session matches Some(t) ==> (trim(t@).len() > 0 ==> session_fault(plan) == id_fault(trim(t@))),
{
}

/// A file that cannot be read is a failure of input and output, and a template that cannot be filled one of
/// the template.
pub proof fn law_unread_files_are_io_failures(
    what: Seq<char>,
    error: Seq<char>,
    template: Seq<char>,
    values: Seq<(Seq<char>, Seq<char>)>,
)
    ensures
        unread(what, error).0 == "io_failure"@,
        unread(what, error).1 == "io failure: "@ + (what + ": "@ + error),
        filled_file(Err(error), what, values) == Err::<Seq<char>, Fault>(unread(what, error)),
        rendered(template, values) is Err ==> (filled_file(Ok(template), what, values) matches Err(f)
            && f.0 == "prompt_template_error"@),
        rendered(template, values) matches Ok(t) ==> filled_file(Ok(template), what, values) == Ok::<
            Seq<char>,
            Fault,
        >(t),
{
}

/// Only a plan that takes up a session carries a conversation on.
pub proof fn law_sessions_are_carried_on(session: Option<Seq<char>>)
    ensures
        carried_on(session) == PromptMode::Followup <==> session is Some,
        carried_on(session) == PromptMode::Fresh <==> session is None,
{
}

} // verus!
