//! Who may dispatch what: the decision about an accepted directive, before anything is started.

use crate::config_load::{
    binding_repos, binding_views, directive_names, directive_views, find_binding, find_directive,
    find_role, DispatchConfig,
};
use crate::dispatch_config::{role_names, role_views};
use crate::documents::{toml_has, toml_table_holds};
use crate::errors::DispatchError;
use crate::ingress::{event_view, Event, EventRecord};
use crate::lexicon::DIRECTIVE_IMPL;
use crate::text::{
    blank, cat4, decimal_int, first_at, has_key, i64_text, lemma_first_at_is, lines, lower, norm,
    opt_view, str_eq, str_lower, str_trim, trim, views,
};
use crate::webhook::{decision_view, first_directive, parse_directive, Decision, DecisionRecord};
use vstd::prelude::*;
use vstd::string::*;

verus! {

/// What is done with a repository's code for a dispatch.
#[verifier::ext_equal]
pub struct Binding<S> {
    pub local_path: S,
    pub git_remote: S,
    pub git_base: S,
}

/// A dispatch that may be started.
#[verifier::ext_equal]
pub struct Admission<S> {
    pub directive: S,
    pub prompt_file: S,
    pub timeout_sec: u64,
    pub role: S,
    pub codex_bin: S,
    pub codex_role_arg: S,
    pub forgejo_login: S,
    pub token_file: S,
    pub actor: S,
    pub principal: S,
    pub codex_profile: Option<S>,
    pub repo: S,
    pub issue_number: u64,
    pub intent_id: S,
    pub binding: Option<Binding<S>>,
}

/// The view of a binding.
pub open spec fn bound_view(b: Option<Binding<String>>) -> Option<Binding<Seq<char>>> {
    match b {
        Some(x) => Some(
            Binding { local_path: x.local_path@, git_remote: x.git_remote@, git_base: x.git_base@ },
        ),
        None => None,
    }
}

/// The view of an admission.
pub open spec fn admission_view(a: Admission<String>) -> Admission<Seq<char>> {
    Admission {
        directive: a.directive@,
        prompt_file: a.prompt_file@,
        timeout_sec: a.timeout_sec,
        role: a.role@,
        codex_bin: a.codex_bin@,
        codex_role_arg: a.codex_role_arg@,
        forgejo_login: a.forgejo_login@,
        token_file: a.token_file@,
        actor: a.actor@,
        principal: a.principal@,
        codex_profile: opt_view(a.codex_profile),
        repo: a.repo@,
        issue_number: a.issue_number,
        intent_id: a.intent_id@,
        binding: bound_view(a.binding),
    }
}

/// An error in contracts: its code and its text, which tell it from every other.
pub type Fault = (Seq<char>, Seq<char>);

/// The code and the text of an error.
pub open spec fn fault(e: DispatchError) -> Fault {
    (e.code(), e.says())
}

/// Who caused an event, in lower case; nobody is the empty name.
pub open spec fn actor_of(e: Event<Seq<char>>) -> Seq<char> {
    match e.actor_login {
        Some(a) => lower(a),
        None => lower(Seq::empty()),
    }
}

/// The profile that an explicit directive of the owner asks for: other profiles are charged to the
/// owner, and a trigger asks for none.
pub open spec fn profile_asked(actor: Seq<char>, d: Decision<Seq<char>>, e: Event<Seq<char>>) -> Option<
    Seq<char>,
> {
    if actor == "main"@ && d.reason_code == "explicit_directive"@ {
        match e.event_text {
            Some(t) => match first_directive(lines(t)) {
                Some(x) => x.profile,
                None => None,
            },
            None => None,
        }
    } else {
        None
    }
}

/// The profile that an explicit directive of the owner asks for.
fn asked_profile(actor: &str, decision: &DecisionRecord, record: &EventRecord) -> (r: Option<String>)
    ensures
        opt_view(r) == profile_asked(actor@, decision_view(*decision), event_view(*record)),
{
    if !str_eq(actor, "main") {
        return None;
    }
    if !str_eq(decision.reason_code.as_str(), "explicit_directive") {
        return None;
    }
    match &record.event_text {
        Some(t) => match parse_directive(t.as_str()) {
            Some(d) => d.profile,
            None => None,
        },
        None => None,
    }
}

/// The configuration of the agent, where it could be read, has the profile.
pub open spec fn profile_configured(profile: Seq<char>, config: Option<Seq<char>>) -> bool {
    !blank(profile) && (config matches Some(raw) && toml_table_holds(
        raw,
        "profiles"@,
        trim(profile),
    ))
}

/// Tells whether the configuration of the agent, where it could be read, has the profile.
pub fn codex_config_has_profile(profile: &str, config: &Option<String>) -> (r: bool)
    ensures
        r == profile_configured(profile@, opt_view(*config)),
{
    let name = str_trim(profile);
    if name.is_empty() {
        return false;
    }
    match config {
        Some(raw) => toml_has(raw.as_str(), "profiles", name),
        None => false,
    }
}

/// The profile that is used: the one asked for, where it is configured.
pub fn usable_profile(requested: Option<String>, configured: bool) -> (r: Option<String>)
    ensures
        r == (if configured {
            requested
        } else {
            None
        }),
{
    if configured {
        requested
    } else {
        None
    }
}

/// The profile that a dispatch uses: the one that an explicit directive of the owner asks for, where the
/// configuration of the agent has it.
pub open spec fn profile_used(
    actor: Seq<char>,
    d: Decision<Seq<char>>,
    e: Event<Seq<char>>,
    codex_config: Option<Seq<char>>,
) -> Option<Seq<char>> {
    match profile_asked(actor, d, e) {
        Some(p) => if profile_configured(p, codex_config) {
            Some(p)
        } else {
            None
        },
        None => None,
    }
}

/// The profile that a dispatch uses.
pub fn resolve_codex_profile_override(
    actor: &str,
    decision: &DecisionRecord,
    record: &EventRecord,
    codex_config: &Option<String>,
) -> (r: Option<String>)
    ensures
        opt_view(r) == profile_used(
            actor@,
            decision_view(*decision),
            event_view(*record),
            opt_view(*codex_config),
        ),
{
    let requested = asked_profile(actor, decision, record);
    let configured = match &requested {
        Some(p) => codex_config_has_profile(p.as_str(), codex_config),
        None => false,
    };
    usable_profile(requested, configured)
}

/// The actor may dispatch: on the list, with a policy of its own, as the role itself, or through the
/// assignment of the issue.
pub open spec fn actor_admitted(
    c: DispatchConfig,
    d: Decision<Seq<char>>,
    actor: Seq<char>,
    role: Seq<char>,
) -> bool {
    ||| d.reason_code == "explicit_directive"@ && actor.len() > 0 && actor == role
    ||| d.reason_code == "assignee_reply"@
    ||| c.rank_acl.has(norm(actor))
    ||| has_key(views(c.allowed_actors@), actor)
}

/// Why the ranks forbid the dispatch: a reply of an assignee needs only a role that may execute it.
pub open spec fn rank_denial(
    c: DispatchConfig,
    d: Decision<Seq<char>>,
    principal: Seq<char>,
    role: Seq<char>,
    directive: Seq<char>,
) -> Option<Seq<char>> {
    if d.reason_code == "assignee_reply"@ {
        c.rank_acl.execute_denial(role, directive)
    } else {
        c.rank_acl.dispatch_denial(principal, role, directive)
    }
}

/// The position of a directive.
pub open spec fn directive_at(c: DispatchConfig, name: Seq<char>) -> int {
    first_at(directive_names(directive_views(c.directives@)), name)
}

/// The position of a role.
pub open spec fn role_at(c: DispatchConfig, name: Seq<char>) -> int {
    first_at(role_names(role_views(c.roles@)), name)
}

/// The position of the binding of a repository.
pub open spec fn binding_at(c: DispatchConfig, repo: Seq<char>) -> int {
    first_at(binding_repos(binding_views(c.repo_bindings@)), repo)
}

/// The binding of a repository.
pub open spec fn binding_of(c: DispatchConfig, repo: Seq<char>) -> Option<Binding<Seq<char>>> {
    if has_key(binding_repos(binding_views(c.repo_bindings@)), repo) {
        let b = c.repo_bindings@[binding_at(c, repo)];
        Some(Binding { local_path: b.local_path@, git_remote: b.git_remote@, git_base: b.git_base@ })
    } else {
        None
    }
}

/// The role that a decision dispatches to: the one it names, else that of the directive.
pub open spec fn role_for(c: DispatchConfig, d: Decision<Seq<char>>, directive: Seq<char>) -> Seq<char> {
    match d.target_role {
        Some(r) => lower(r),
        None => lower(c.directives@[directive_at(c, directive)].role@),
    }
}

/// For whom a decision dispatches: the principal it names, else the actor.
pub open spec fn principal_for(d: Decision<Seq<char>>, actor: Seq<char>) -> Seq<char> {
    match d.principal_login {
        Some(p) => lower(p),
        None => lower(actor),
    }
}

/// The dispatch that a decision admits, or why it admits none: an unknown directive or role, an actor
/// or a rank that may not, no issue, or code to change without a binding.
pub open spec fn admitted(
    c: DispatchConfig,
    e: Event<Seq<char>>,
    d: Decision<Seq<char>>,
    event_id: i64,
    decision_id: i64,
    codex_config: Option<Seq<char>>,
) -> Result<Admission<Seq<char>>, Fault> {
    let code_d = "directive_not_configured"@;
    match d.directive {
        None => Err((code_d, "directive not configured: "@ + "<none>"@)),
        Some(name) => {
            let actor = actor_of(e);
            let role = role_for(c, d, name);
            let principal = principal_for(d, actor);
            if !has_key(directive_names(directive_views(c.directives@)), name) {
                Err((code_d, "directive not configured: "@ + name))
            } else if !has_key(role_names(role_views(c.roles@)), role) {
                Err(("role_not_configured"@, "role not configured: "@ + role))
            } else if !actor_admitted(c, d, actor, role) {
                Err(("actor_not_allowed"@, "actor not allowed: "@ + actor))
            } else if rank_denial(c, d, principal, role, name) is Some {
                Err(
                    (
                        "rank_acl_denied"@,
                        "rank ACL denied dispatch: "@ + rank_denial(c, d, principal, role, name)->0,
                    ),
                )
            } else if e.issue_number is None {
                Err(("invalid_issue_ref"@, "invalid issue ref: "@ + e.repo_full_name))
            } else if name == DIRECTIVE_IMPL@ && binding_of(c, e.repo_full_name) is None {
                Err(
                    (
                        "repo_binding_missing"@,
                        "repo workspace binding is required for impl dispatch: "@
                            + e.repo_full_name,
                    ),
                )
            } else {
                let dir = c.directives@[directive_at(c, name)];
                let r = c.roles@[role_at(c, role)];
                Ok(
                    Admission {
                        directive: name,
                        prompt_file: dir.prompt_file@,
                        timeout_sec: dir.timeout_sec,
                        role,
                        codex_bin: r.codex_bin@,
                        codex_role_arg: r.codex_role_arg@,
                        forgejo_login: r.forgejo_login@,
                        token_file: r.token_file@,
                        actor,
                        principal,
                        codex_profile: profile_used(actor, d, e, codex_config),
                        repo: e.repo_full_name,
                        issue_number: e.issue_number->0,
                        intent_id: "event-"@ + decimal_int(event_id as int) + "-decision-"@
                            + decimal_int(decision_id as int),
                        binding: binding_of(c, e.repo_full_name),
                    },
                )
            }
        },
    }
}

/// Tells whether a list holds a name.
fn lists(names: &Vec<String>, name: &str) -> (r: bool)
    ensures
        r == has_key(views(names@), name@),
{
    let ghost keys = views(names@);
    let mut i: usize = 0;
    while i < names.len()
        invariant
            i <= names@.len(),
            keys == views(names@),
            forall|k: int| 0 <= k < i ==> #[trigger] keys[k] != name@,
        decreases names.len() - i,
    {
        proof {
            assert(keys[i as int] == names@[i as int]@);
        }
        if str_eq(names[i].as_str(), name) {
            proof {
                lemma_first_at_is(keys, name@, i as int);
            }
            return true;
        }
        i = i + 1;
    }
    proof {
        lemma_first_at_is(keys, name@, i as int);
    }
    false
}

/// The actor may dispatch.
fn may_dispatch(c: &DispatchConfig, d: &DecisionRecord, actor: &str, role: &str) -> (r: bool)
    ensures
        r == actor_admitted(*c, decision_view(*d), actor@, role@),
{
    (str_eq(d.reason_code.as_str(), "explicit_directive") && !actor.is_empty() && str_eq(actor, role))
        || str_eq(d.reason_code.as_str(), "assignee_reply") || c.rank_acl.has_role_policy(actor)
        || lists(&c.allowed_actors, actor)
}

/// The binding of a repository.
fn bound(c: &DispatchConfig, repo: &str) -> (r: Option<Binding<String>>)
    ensures
        bound_view(r) == binding_of(*c, repo@),
{
    match find_binding(&c.repo_bindings, repo) {
        Some(i) => {
            let b = &c.repo_bindings[i];
            Some(
                Binding {
                    local_path: b.local_path.clone(),
                    git_remote: b.git_remote.clone(),
                    git_base: b.git_base.clone(),
                },
            )
        },
        None => None,
    }
}

/// The dispatch that a decision admits, or why it admits none.
pub fn admit_dispatch(
    config: &DispatchConfig,
    record: &EventRecord,
    decision: &DecisionRecord,
    event_id: i64,
    decision_id: i64,
    codex_config: &Option<String>,
) -> (r: Result<Admission<String>, DispatchError>)
    ensures
        match admitted(
            *config,
            event_view(*record),
            decision_view(*decision),
            event_id,
            decision_id,
            opt_view(*codex_config),
        ) {
            Ok(a) => r matches Ok(x) && admission_view(x) == a,
            Err(f) => r matches Err(x) && fault(x) == f,
        },
{
    let name = match &decision.directive {
        Some(n) => n.as_str(),
        None => {
            return Err(DispatchError::DirectiveNotConfigured("<none>".to_owned()));
        },
    };
    let dir = match find_directive(&config.directives, name) {
        Some(i) => &config.directives[i],
        None => {
            return Err(DispatchError::DirectiveNotConfigured(name.to_owned()));
        },
    };
    let role = match &decision.target_role {
        Some(r) => str_lower(r.as_str()),
        None => str_lower(dir.role.as_str()),
    };
    let role_config = match find_role(&config.roles, role.as_str()) {
        Some(i) => &config.roles[i],
        None => {
            return Err(DispatchError::RoleNotConfigured(role));
        },
    };
    let actor = match &record.actor_login {
        Some(a) => str_lower(a.as_str()),
        None => {
            let none = String::new();
            proof {
                assert(none@ =~= Seq::<char>::empty());
            }
            str_lower(none.as_str())
        },
    };
    let principal = match &decision.principal_login {
        Some(p) => str_lower(p.as_str()),
        None => str_lower(actor.as_str()),
    };
    if !may_dispatch(config, decision, actor.as_str(), role.as_str()) {
        return Err(DispatchError::ActorNotAllowed(actor));
    }
    let verdict = if str_eq(decision.reason_code.as_str(), "assignee_reply") {
        config.rank_acl.assert_target_can_execute(role.as_str(), name)
    } else {
        config.rank_acl.assert_actor_can_dispatch(principal.as_str(), role.as_str(), name)
    };
    if let Err(m) = verdict {
        return Err(DispatchError::RankAclDenied(m));
    }
    let codex_profile = resolve_codex_profile_override(
        actor.as_str(),
        decision,
        record,
        codex_config,
    );
    let issue_number: u64 = match record.issue_number {
        Some(n) => n,
        None => {
            return Err(DispatchError::InvalidIssueRef(record.repo_full_name.clone()));
        },
    };
    let binding = bound(config, record.repo_full_name.as_str());
    if str_eq(name, DIRECTIVE_IMPL) && binding.is_none() {
        return Err(DispatchError::RepoBindingMissing(record.repo_full_name.clone()));
    }
    let e = i64_text(event_id);
    let d = i64_text(decision_id);
    Ok(
        Admission {
            directive: name.to_owned(),
            prompt_file: dir.prompt_file.clone(),
            timeout_sec: dir.timeout_sec,
            role,
            codex_bin: role_config.codex_bin.clone(),
            codex_role_arg: role_config.codex_role_arg.clone(),
            forgejo_login: role_config.forgejo_login.clone(),
            token_file: role_config.token_file.clone(),
            actor,
            principal,
            codex_profile,
            repo: record.repo_full_name.clone(),
            issue_number,
            intent_id: cat4("event-", e.as_str(), "-decision-", d.as_str()),
            binding,
        },
    )
}

/// Nothing is admitted that the ranks forbid, and no code is changed without a binding.
pub proof fn law_admissions_obey_the_ranks(
    c: DispatchConfig,
    e: Event<Seq<char>>,
    d: Decision<Seq<char>>,
    event_id: i64,
    decision_id: i64,
    codex_config: Option<Seq<char>>,
)
    ensures
        admitted(c, e, d, event_id, decision_id, codex_config) matches Ok(a) ==> {
            &&& d.reason_code != "assignee_reply"@ ==> c.rank_acl.dispatch_denial(
                a.principal,
                a.role,
                a.directive,
            ) is None
            &&& d.reason_code == "assignee_reply"@ ==> c.rank_acl.execute_denial(
                a.role,
                a.directive,
            ) is None
            &&& a.directive == DIRECTIVE_IMPL@ ==> a.binding is Some
            &&& actor_admitted(c, d, a.actor, a.role)
        },
{
}

/// A profile is used only for the owner and an explicit directive, and only one that is configured.
pub proof fn law_profiles_are_for_the_owner(
    c: DispatchConfig,
    e: Event<Seq<char>>,
    d: Decision<Seq<char>>,
    event_id: i64,
    decision_id: i64,
    codex_config: Option<Seq<char>>,
)
    ensures
        admitted(c, e, d, event_id, decision_id, codex_config) matches Ok(a) ==> (
        a.codex_profile matches Some(p) ==> a.actor == "main"@ && d.reason_code
            == "explicit_directive"@ && profile_configured(p, codex_config)),
{
}

/// A decision is admitted exactly where its directive and role are configured, the actor may dispatch and
/// the ranks let it, the event has an issue, and code that is to be changed has a binding. An actor may
/// dispatch who is on the list or has a policy among the ranks, who directs itself, or through the
/// assignment of the issue. `di` and `ri` are where the directive and the role stand.
pub proof fn law_admission_is_exact(
    c: DispatchConfig,
    e: Event<Seq<char>>,
    d: Decision<Seq<char>>,
    event_id: i64,
    decision_id: i64,
    codex_config: Option<Seq<char>>,
    di: int,
    ri: int,
)
    requires
        0 <= di < c.directives@.len(),
        d.directive == Some(c.directives@[di].name@),
        forall|k: int|
            0 <= k < di ==> (#[trigger] c.directives@[k]).name@ != c.directives@[di].name@,
        0 <= ri < c.roles@.len(),
        c.roles@[ri].name@ == (match d.target_role {
            Some(r) => lower(r),
            None => lower(c.directives@[di].role@),
        }),
        forall|k: int| 0 <= k < ri ==> (#[trigger] c.roles@[k]).name@ != c.roles@[ri].name@,
    ensures
        ({
            let name = c.directives@[di].name@;
            let role = c.roles@[ri].name@;
            let actor = match e.actor_login {
                Some(a) => lower(a),
                None => Seq::empty(),
            };
            let principal = match d.principal_login {
                Some(p) => lower(p),
                None => lower(actor),
            };
            let listed = exists|k: int|
                0 <= k < c.allowed_actors@.len() && (#[trigger] c.allowed_actors@[k])@ == actor;
            let ranked = exists|k: int|
                0 <= k < c.rank_acl.role_policies@.len() && (#[trigger] c.rank_acl.role_policies@[k]).name@
                    == norm(actor);
            let itself = d.reason_code == "explicit_directive"@ && actor.len() > 0 && actor == role;
            let assigned = d.reason_code == "assignee_reply"@;
            let denied = if assigned {
                c.rank_acl.execute_denial(role, name)
            } else {
                c.rank_acl.dispatch_denial(principal, role, name)
            };
            let bound = exists|k: int|
                0 <= k < c.repo_bindings@.len() && (#[trigger] c.repo_bindings@[k]).repo@
                    == e.repo_full_name;
            let r = admitted(c, e, d, event_id, decision_id, codex_config);
            &&& r is Ok <==> (listed || ranked || itself || assigned) && denied is None
                && e.issue_number is Some && (name == "impl"@ ==> bound)
            &&& !(listed || ranked || itself || assigned) ==> (r matches Err(f) && f.0
                == "actor_not_allowed"@)
            &&& (listed || ranked || itself || assigned) && denied is Some ==> (r matches Err(f) && f.0
                == "rank_acl_denied"@)
            &&& r matches Ok(a) ==> {
                &&& a.directive == name
                &&& a.role == role
                &&& a.actor == actor
                &&& a.principal == principal
                &&& a.repo == e.repo_full_name
                &&& Some(a.issue_number) == e.issue_number
                &&& a.prompt_file == c.directives@[di].prompt_file@
                &&& a.timeout_sec == c.directives@[di].timeout_sec
                &&& a.codex_bin == c.roles@[ri].codex_bin@
                &&& a.codex_role_arg == c.roles@[ri].codex_role_arg@
                &&& a.forgejo_login == c.roles@[ri].forgejo_login@
                &&& a.token_file == c.roles@[ri].token_file@
                &&& a.binding is Some <==> bound
                &&& a.binding matches Some(b) ==> exists|k: int|
                    0 <= k < c.repo_bindings@.len() && (#[trigger] c.repo_bindings@[k]).repo@
                        == e.repo_full_name && b.local_path == c.repo_bindings@[k].local_path@
                        && b.git_remote == c.repo_bindings@[k].git_remote@ && b.git_base
                        == c.repo_bindings@[k].git_base@
            }
        }),
{
    let dirs = directive_names(directive_views(c.directives@));
    let roles = role_names(role_views(c.roles@));
    let repos = binding_repos(binding_views(c.repo_bindings@));
    let acl = crate::rank_acl::role_keys(c.rank_acl.role_policies@);
    let actors = views(c.allowed_actors@);
    let actor = actor_of(e);
    lemma_first_at_is(dirs, c.directives@[di].name@, di);
    lemma_first_at_is(roles, c.roles@[ri].name@, ri);
    crate::text::lemma_first_at(repos, e.repo_full_name);
    crate::text::lemma_first_at(acl, norm(actor));
    crate::text::lemma_first_at(actors, actor);
    assert(lower(Seq::<char>::empty()) =~= Seq::<char>::empty());
    assert(actors.contains(actor) <==> exists|k: int|
        0 <= k < c.allowed_actors@.len() && (#[trigger] c.allowed_actors@[k])@ == actor) by {
        if actors.contains(actor) {
            let k = choose|k: int| 0 <= k < actors.len() && actors[k] == actor;
            assert(c.allowed_actors@[k]@ == actor);
        }
        if exists|k: int|
            0 <= k < c.allowed_actors@.len() && (#[trigger] c.allowed_actors@[k])@ == actor {
            let k = choose|k: int|
                0 <= k < c.allowed_actors@.len() && (#[trigger] c.allowed_actors@[k])@ == actor;
            assert(actors[k] == actor);
        }
    }
    assert(acl.contains(norm(actor)) <==> exists|k: int|
        0 <= k < c.rank_acl.role_policies@.len() && (#[trigger] c.rank_acl.role_policies@[k]).name@
            == norm(actor)) by {
        if acl.contains(norm(actor)) {
            let k = choose|k: int| 0 <= k < acl.len() && acl[k] == norm(actor);
            assert(c.rank_acl.role_policies@[k].name@ == norm(actor));
        }
        if exists|k: int|
            0 <= k < c.rank_acl.role_policies@.len() && (#[trigger] c.rank_acl.role_policies@[k]).name@
                == norm(actor) {
            let k = choose|k: int|
                0 <= k < c.rank_acl.role_policies@.len() && (
                #[trigger] c.rank_acl.role_policies@[k]).name@ == norm(actor);
            assert(acl[k] == norm(actor));
        }
    }
    assert(repos.contains(e.repo_full_name) <==> exists|k: int|
        0 <= k < c.repo_bindings@.len() && (#[trigger] c.repo_bindings@[k]).repo@
            == e.repo_full_name) by {
        if repos.contains(e.repo_full_name) {
            let k = choose|k: int| 0 <= k < repos.len() && repos[k] == e.repo_full_name;
            assert(c.repo_bindings@[k].repo@ == e.repo_full_name);
        }
        if exists|k: int|
            0 <= k < c.repo_bindings@.len() && (#[trigger] c.repo_bindings@[k]).repo@
                == e.repo_full_name {
            let k = choose|k: int|
                0 <= k < c.repo_bindings@.len() && (#[trigger] c.repo_bindings@[k]).repo@
                    == e.repo_full_name;
            assert(repos[k] == e.repo_full_name);
        }
    }
    if has_key(repos, e.repo_full_name) {
        let k = first_at(repos, e.repo_full_name);
        assert(repos[k] == e.repo_full_name);
        assert(c.repo_bindings@[k].repo@ == e.repo_full_name);
    }
}

/// A directive or a role that is not configured is refused, and so is a decision without a directive.
pub proof fn law_unknown_names_are_refused(
    c: DispatchConfig,
    e: Event<Seq<char>>,
    d: Decision<Seq<char>>,
    event_id: i64,
    decision_id: i64,
    codex_config: Option<Seq<char>>,
)
    ensures
        ({
            let r = admitted(c, e, d, event_id, decision_id, codex_config);
            &&& d.directive is None ==> (r matches Err(f) && f.0 == "directive_not_configured"@)
            &&& d.directive matches Some(name) ==> ((forall|k: int|
                0 <= k < c.directives@.len() ==> (#[trigger] c.directives@[k]).name@ != name) ==> (
            r matches Err(f) && f.0 == "directive_not_configured"@))
            &&& d.target_role matches Some(role) ==> ((forall|k: int|
                0 <= k < c.roles@.len() ==> (#[trigger] c.roles@[k]).name@ != lower(role)) ==> r is Err)
        }),
{
    if let Some(name) = d.directive {
        let dirs = directive_names(directive_views(c.directives@));
        crate::text::lemma_first_at(dirs, name);
        if has_key(dirs, name) {
            let k = first_at(dirs, name);
            assert(c.directives@[k].name@ == name);
        }
    }
    if let Some(role) = d.target_role {
        let roles = role_names(role_views(c.roles@));
        crate::text::lemma_first_at(roles, lower(role));
        if has_key(roles, lower(role)) {
            let k = first_at(roles, lower(role));
            assert(c.roles@[k].name@ == lower(role));
        }
    }
}

/// The owner gets the profile that an explicit directive asks for, exactly where it is configured.
pub proof fn law_asked_profiles_are_used(
    c: DispatchConfig,
    e: Event<Seq<char>>,
    d: Decision<Seq<char>>,
    event_id: i64,
    decision_id: i64,
    codex_config: Option<Seq<char>>,
    text: Seq<char>,
)
    requires
        e.event_text == Some(text),
    ensures
        admitted(c, e, d, event_id, decision_id, codex_config) matches Ok(a) ==> (a.actor == "main"@
            && d.reason_code == "explicit_directive"@ ==> (first_directive(lines(text)) matches Some(x)
            ==> a.codex_profile == (match (x.profile, codex_config) {
            (Some(p), Some(raw)) => if trim(p).len() > 0 && toml_table_holds(
                raw,
                "profiles"@,
                trim(p),
            ) {
                Some(p)
            } else {
                None
            },
            _ => None,
        }))),
{
}

/// A refusal is told by the code of its error and what that says.
pub proof fn law_refusals_are_told_by_code(e: DispatchError)
    ensures
        fault(e).0 == e.code(),
        fault(e).1 == e.says(),
{
}

} // verus!
