//! The triggers that turn events into dispatches.

use crate::lexicon::{
    directive_is_known, known_directive, DIRECTIVE_REPLY, EVENT_ISSUES, EVENT_ISSUE_COMMENT,
};
use crate::text::{
    cat2, cat3, cat5, lower, norm, str_eq, str_norm, str_starts_with, str_trim, trim, views,
};
use vstd::prelude::*;
use vstd::string::*;

verus! {

/// The kind of a trigger.
#[derive(Clone, Copy, PartialEq, Eq, Structural)]
pub enum DispatchTriggerClass {
    ExplicitDirective,
    AssigneeReply,
    Registered,
}

impl DispatchTriggerClass {
    /// The precedence of the kind; the higher one wins.
    pub open spec fn precedence(self) -> int {
        match self {
            DispatchTriggerClass::ExplicitDirective => 3,
            DispatchTriggerClass::AssigneeReply => 2,
            DispatchTriggerClass::Registered => 1,
        }
    }

    /// The precedence of the kind; the higher one wins.
    pub fn precedence_rank(&self) -> (r: u8)
        ensures
            r == self.precedence(),
    {
        match self {
            DispatchTriggerClass::ExplicitDirective => 3,
            DispatchTriggerClass::AssigneeReply => 2,
            DispatchTriggerClass::Registered => 1,
        }
    }
}

/// What the text of an event must hold.
#[derive(Clone, Copy, PartialEq, Eq, Structural)]
pub enum DispatchTriggerDirectiveGuard {
    Any,
    RequireParsed,
    RequireAbsent,
}

/// Who the issue must be assigned to.
#[derive(Clone, Copy, PartialEq, Eq, Structural)]
pub enum DispatchTriggerAssigneeGuard {
    Any,
    RequireSingleCodex,
}

/// Who may cause the event.
#[derive(Clone, Copy, PartialEq, Eq, Structural)]
pub enum DispatchTriggerActorGuard {
    Any,
    RequireNotAssignee,
}

/// The conditions of a trigger.
#[derive(Clone, Copy, PartialEq, Eq, Structural)]
pub struct DispatchTriggerGuards {
    pub directive: DispatchTriggerDirectiveGuard,
    pub assignee: DispatchTriggerAssigneeGuard,
    pub actor: DispatchTriggerActorGuard,
}

/// The events that a trigger looks at.
pub struct DispatchTriggerMatcher {
    pub event_type: String,
    pub actions: Vec<String>,
}

/// Where the directive of a dispatch comes from.
pub enum DispatchTriggerDirectiveSource {
    Literal(String),
    ParsedDirective,
}

/// Where the role of a dispatch comes from.
pub enum DispatchTriggerRoleSource {
    Literal(String),
    ParsedDirectiveRole,
    SingleAssignee,
}

/// What a trigger dispatches.
pub struct DispatchTriggerAction {
    pub directive: DispatchTriggerDirectiveSource,
    pub target_role: DispatchTriggerRoleSource,
    pub reason_code: String,
}

/// A trigger.
pub struct DispatchTriggerConfig {
    pub id: String,
    pub class: DispatchTriggerClass,
    pub priority: i32,
    pub matcher: DispatchTriggerMatcher,
    pub guards: DispatchTriggerGuards,
    pub action: DispatchTriggerAction,
    pub apply_guardrails: bool,
}

/// What a trigger dispatches, as the config writes it.
pub struct TriggerActionFile {
    pub directive: Option<String>,
    pub directive_from: Option<String>,
    pub target_role: Option<String>,
    pub target_role_from: Option<String>,
    pub reason_code: Option<String>,
}

/// A trigger as the config writes it.
pub struct TriggerFile {
    pub id: String,
    pub event: String,
    pub actions: Vec<String>,
    pub priority: i32,
    pub guards: DispatchTriggerGuards,
    pub action: TriggerActionFile,
    pub apply_guardrails: bool,
}

/// The view of a directive source.
pub open spec fn directive_source_view(d: DispatchTriggerDirectiveSource) -> Option<Seq<char>> {
    match d {
        DispatchTriggerDirectiveSource::Literal(s) => Some(s@),
        DispatchTriggerDirectiveSource::ParsedDirective => None,
    }
}

/// A message on the trigger with the given id.
pub open spec fn about_trigger(path: Seq<char>, id: Seq<char>, what: Seq<char>) -> Seq<char> {
    "dispatch config "@ + path + " trigger '"@ + id + what
}

/// A message on the trigger with the given id.
fn trigger_message(path: &str, id: &str, what: &str) -> (r: String)
    ensures
        r@ == about_trigger(path@, id@, what@),
{
    cat5("dispatch config ", path, " trigger '", id, what)
}

/// Tells whether the name is in the list.
pub fn listed(names: &Vec<String>, name: &str) -> (r: bool)
    ensures
        r == views(names@).contains(name@),
{
    let mut i: usize = 0;
    while i < names.len()
        invariant
            i <= names@.len(),
            forall|k: int| 0 <= k < i ==> (#[trigger] names@[k])@ != name@,
        decreases names.len() - i,
    {
        if str_eq(names[i].as_str(), name) {
            proof {
                assert(views(names@)[i as int] == name@);
            }
            return true;
        }
        i = i + 1;
    }
    proof {
        if views(names@).contains(name@) {
            let k = choose|k: int| 0 <= k < views(names@).len() && views(names@)[k] == name@;
            assert(names@[k]@ == name@);
        }
    }
    false
}

/// Where the directive comes from: the literal one, or nothing for the one parsed from the event; or
/// what is wrong.
pub open spec fn directive_source(
    path: Seq<char>,
    id: Seq<char>,
    a: TriggerActionFile,
    directives: Seq<Seq<char>>,
) -> Result<Option<Seq<char>>, Seq<char>> {
    match (a.directive, a.directive_from) {
        (Some(d), None) => {
            let d = norm(d@);
            if d.len() == 0 {
                Err(about_trigger(path, id, "' has empty action.directive"@))
            } else if !known_directive(d) {
                Err(about_trigger(path, id, "' references unknown directive '"@ + d + "'"@))
            } else if !directives.contains(d) {
                Err(about_trigger(path, id, "' references unconfigured directive '"@ + d + "'"@))
            } else {
                Ok(Some(d))
            }
        },
        (None, Some(source)) => if lower(trim(source@)) == lower("parsed"@) {
            Ok(None)
        } else {
            Err(
                about_trigger(
                    path,
                    id,
                    "' has unsupported action.directive_from '"@ + source@
                        + "'; expected 'parsed'"@,
                ),
            )
        },
        (Some(_), Some(_)) => Err(
            about_trigger(
                path,
                id,
                "' action must set exactly one of directive or directive_from"@,
            ),
        ),
        (None, None) => Err(about_trigger(path, id, "' action is missing directive source"@)),
    }
}

/// Where a role comes from.
pub enum RoleFrom {
    Named(Seq<char>),
    Parsed,
    Assignee,
}

/// The view of a role source.
pub open spec fn role_source_view(s: DispatchTriggerRoleSource) -> RoleFrom {
    match s {
        DispatchTriggerRoleSource::Literal(r) => RoleFrom::Named(r@),
        DispatchTriggerRoleSource::ParsedDirectiveRole => RoleFrom::Parsed,
        DispatchTriggerRoleSource::SingleAssignee => RoleFrom::Assignee,
    }
}

/// Where the role comes from, or what is wrong.
pub open spec fn role_source(
    path: Seq<char>,
    id: Seq<char>,
    a: TriggerActionFile,
    roles: Seq<Seq<char>>,
) -> Result<RoleFrom, Seq<char>> {
    match (a.target_role, a.target_role_from) {
        (Some(role), None) => {
            let role = norm(role@);
            if role.len() == 0 {
                Err(about_trigger(path, id, "' has empty action.target_role"@))
            } else if !roles.contains(role) {
                Err(about_trigger(path, id, "' references unknown role '"@ + role + "'"@))
            } else {
                Ok(RoleFrom::Named(role))
            }
        },
        (None, Some(source)) => if lower(trim(source@)) == lower("parsed"@) {
            Ok(RoleFrom::Parsed)
        } else if lower(trim(source@)) == lower("assignee"@) {
            Ok(RoleFrom::Assignee)
        } else {
            Err(
                about_trigger(
                    path,
                    id,
                    "' has unsupported action.target_role_from '"@ + source@
                        + "'; expected 'parsed' or 'assignee'"@,
                ),
            )
        },
        (Some(_), Some(_)) => Err(
            about_trigger(
                path,
                id,
                "' action must set exactly one of target_role or target_role_from"@,
            ),
        ),
        (None, None) => Err(about_trigger(path, id, "' action is missing target role source"@)),
    }
}

/// The reason code of a registered trigger before it is checked.
pub open spec fn reason_code_of(id: Seq<char>, given: Option<String>) -> Seq<char> {
    match given {
        Some(r) => if trim(r@).len() > 0 {
            trim(r@)
        } else {
            "registered_trigger:"@ + id
        },
        None => "registered_trigger:"@ + id,
    }
}

/// What a registered trigger dispatches.
pub struct TriggerActionSpec {
    pub directive: Option<Seq<char>>,
    pub role: RoleFrom,
    pub reason_code: Seq<char>,
}

/// The view of a trigger action.
pub open spec fn action_view(a: DispatchTriggerAction) -> TriggerActionSpec {
    TriggerActionSpec {
        directive: directive_source_view(a.directive),
        role: role_source_view(a.target_role),
        reason_code: a.reason_code@,
    }
}

/// What a registered trigger dispatches, or what is wrong with its action.
pub open spec fn action_compiled(
    path: Seq<char>,
    id: Seq<char>,
    a: TriggerActionFile,
    directives: Seq<Seq<char>>,
    roles: Seq<Seq<char>>,
) -> Result<TriggerActionSpec, Seq<char>> {
    match directive_source(path, id, a, directives) {
        Err(e) => Err(e),
        Ok(directive) => match role_source(path, id, a, roles) {
            Err(e) => Err(e),
            Ok(role) => {
                let reason_code = reason_code_of(id, a.reason_code);
                if !"registered_trigger:"@.is_prefix_of(reason_code) {
                    Err(
                        about_trigger(
                            path,
                            id,
                            "' reason_code '"@ + reason_code
                                + "' must start with 'registered_trigger:'"@,
                        ),
                    )
                } else {
                    Ok(TriggerActionSpec { directive, role, reason_code })
                }
            },
        },
    }
}

/// Compiles where the directive comes from.
fn compile_directive_source(
    config_path: &str,
    trigger_id: &str,
    action: &TriggerActionFile,
    directives: &Vec<String>,
) -> (r: Result<DispatchTriggerDirectiveSource, String>)
    ensures
        match directive_source(config_path@, trigger_id@, *action, views(directives@)) {
            Ok(s) => r matches Ok(d) && directive_source_view(d) == s,
            Err(m) => r matches Err(e) && e@ == m,
        },
{
    match (&action.directive, &action.directive_from) {
        (Some(d), None) => {
            let d = str_norm(d.as_str());
            if d.as_str().is_empty() {
                return Err(trigger_message(config_path, trigger_id, "' has empty action.directive"));
            }
            if !directive_is_known(d.as_str()) {
                let what = cat3("' references unknown directive '", d.as_str(), "'");
                return Err(trigger_message(config_path, trigger_id, what.as_str()));
            }
            if !listed(directives, d.as_str()) {
                let what = cat3("' references unconfigured directive '", d.as_str(), "'");
                return Err(trigger_message(config_path, trigger_id, what.as_str()));
            }
            Ok(DispatchTriggerDirectiveSource::Literal(d))
        },
        (None, Some(source)) => {
            if crate::text::eq_ignore_case(str_trim(source.as_str()), "parsed") {
                return Ok(DispatchTriggerDirectiveSource::ParsedDirective);
            }
            let what = cat3(
                "' has unsupported action.directive_from '",
                source.as_str(),
                "'; expected 'parsed'",
            );
            Err(trigger_message(config_path, trigger_id, what.as_str()))
        },
        (Some(_), Some(_)) => Err(
            trigger_message(
                config_path,
                trigger_id,
                "' action must set exactly one of directive or directive_from",
            ),
        ),
        (None, None) => Err(
            trigger_message(config_path, trigger_id, "' action is missing directive source"),
        ),
    }
}

/// Compiles where the role comes from.
fn compile_role_source(
    config_path: &str,
    trigger_id: &str,
    action: &TriggerActionFile,
    roles: &Vec<String>,
) -> (r: Result<DispatchTriggerRoleSource, String>)
    ensures
        match role_source(config_path@, trigger_id@, *action, views(roles@)) {
            Ok(s) => r matches Ok(d) && role_source_view(d) == s,
            Err(m) => r matches Err(e) && e@ == m,
        },
{
    match (&action.target_role, &action.target_role_from) {
        (Some(role), None) => {
            let role = str_norm(role.as_str());
            if role.as_str().is_empty() {
                return Err(
                    trigger_message(config_path, trigger_id, "' has empty action.target_role"),
                );
            }
            if !listed(roles, role.as_str()) {
                let what = cat3("' references unknown role '", role.as_str(), "'");
                return Err(trigger_message(config_path, trigger_id, what.as_str()));
            }
            Ok(DispatchTriggerRoleSource::Literal(role))
        },
        (None, Some(source)) => {
            if crate::text::eq_ignore_case(str_trim(source.as_str()), "parsed") {
                return Ok(DispatchTriggerRoleSource::ParsedDirectiveRole);
            }
            if crate::text::eq_ignore_case(str_trim(source.as_str()), "assignee") {
                return Ok(DispatchTriggerRoleSource::SingleAssignee);
            }
            let what = cat3(
                "' has unsupported action.target_role_from '",
                source.as_str(),
                "'; expected 'parsed' or 'assignee'",
            );
            Err(trigger_message(config_path, trigger_id, what.as_str()))
        },
        (Some(_), Some(_)) => Err(
            trigger_message(
                config_path,
                trigger_id,
                "' action must set exactly one of target_role or target_role_from",
            ),
        ),
        (None, None) => Err(
            trigger_message(config_path, trigger_id, "' action is missing target role source"),
        ),
    }
}

/// Compiles what a registered trigger dispatches. Exactly one source of the directive and one of the
/// role must be given; literal names must be configured; the reason code keeps its prefix.
pub fn compile_trigger_action(
    config_path: &str,
    trigger_id: &str,
    action: &TriggerActionFile,
    directives: &Vec<String>,
    roles: &Vec<String>,
) -> (r: Result<DispatchTriggerAction, String>)
    ensures
        match action_compiled(
            config_path@,
            trigger_id@,
            *action,
            views(directives@),
            views(roles@),
        ) {
            Ok(s) => r matches Ok(a) && action_view(a) == s,
            Err(m) => r matches Err(e) && e@ == m,
        },
{
    let directive = match compile_directive_source(config_path, trigger_id, action, directives) {
        Ok(d) => d,
        Err(e) => {
            return Err(e);
        },
    };
    let target_role = match compile_role_source(config_path, trigger_id, action, roles) {
        Ok(d) => d,
        Err(e) => {
            return Err(e);
        },
    };
    let reason_code = match &action.reason_code {
        Some(r) => {
            let t = str_trim(r.as_str());
            if t.is_empty() {
                cat2("registered_trigger:", trigger_id)
            } else {
                t.to_owned()
            }
        },
        None => cat2("registered_trigger:", trigger_id),
    };
    if !str_starts_with(reason_code.as_str(), "registered_trigger:") {
        let what = cat3(
            "' reason_code '",
            reason_code.as_str(),
            "' must start with 'registered_trigger:'",
        );
        return Err(trigger_message(config_path, trigger_id, what.as_str()));
    }
    Ok(DispatchTriggerAction { directive, target_role, reason_code })
}


/// A trigger, field by field.
pub struct TriggerSpec {
    pub id: Seq<char>,
    pub class: DispatchTriggerClass,
    pub priority: int,
    pub event_type: Seq<char>,
    pub actions: Seq<Seq<char>>,
    pub guards: DispatchTriggerGuards,
    pub action: TriggerActionSpec,
    pub apply_guardrails: bool,
}

/// The view of a trigger.
pub open spec fn trigger_view(t: DispatchTriggerConfig) -> TriggerSpec {
    TriggerSpec {
        id: t.id@,
        class: t.class,
        priority: t.priority as int,
        event_type: t.matcher.event_type@,
        actions: views(t.matcher.actions@),
        guards: t.guards,
        action: action_view(t.action),
        apply_guardrails: t.apply_guardrails,
    }
}

/// The actions of a trigger, trimmed and in lower case, or the message for the first blank one.
pub open spec fn actions_compiled(path: Seq<char>, id: Seq<char>, raw: Seq<Seq<char>>) -> Result<
    Seq<Seq<char>>,
    Seq<char>,
> {
    if exists|i: int| 0 <= i < raw.len() && norm(#[trigger] raw[i]).len() == 0 {
        Err(about_trigger(path, id, "' includes blank action"@))
    } else {
        Ok(raw.map_values(|a: Seq<char>| norm(a)))
    }
}

/// A registered trigger of the config, or what is wrong with it.
pub open spec fn trigger_compiled(
    path: Seq<char>,
    t: TriggerFile,
    directives: Seq<Seq<char>>,
    roles: Seq<Seq<char>>,
) -> Result<TriggerSpec, Seq<char>> {
    let id = trim(t.id@);
    let event = norm(t.event@);
    if id.len() == 0 {
        Err("dispatch config "@ + path + " contains trigger with empty id"@)
    } else if event != "issues"@ && event != "issue_comment"@ {
        Err(about_trigger(path, id, "' has unsupported event '"@ + t.event@ + "'"@))
    } else if t.actions@.len() == 0 {
        Err(about_trigger(path, id, "' has empty actions"@))
    } else {
        match actions_compiled(path, id, views(t.actions@)) {
            Err(e) => Err(e),
            Ok(actions) => if t.guards.actor == DispatchTriggerActorGuard::RequireNotAssignee
                && t.guards.assignee == DispatchTriggerAssigneeGuard::Any {
                Err(
                    about_trigger(
                        path,
                        id,
                        "' sets actor=require_not_assignee without assignee=require_single_codex"@,
                    ),
                )
            } else {
                match action_compiled(path, id, t.action, directives, roles) {
                    Err(e) => Err(e),
                    Ok(action) => Ok(
                        TriggerSpec {
                            id,
                            class: DispatchTriggerClass::Registered,
                            priority: t.priority as int,
                            event_type: event,
                            actions,
                            guards: t.guards,
                            action,
                            apply_guardrails: t.apply_guardrails,
                        },
                    ),
                }
            },
        }
    }
}

/// Compiles the actions of a trigger.
fn compile_actions(config_path: &str, trigger_id: &str, raw: &Vec<String>) -> (r: Result<
    Vec<String>,
    String,
>)
    ensures
        match actions_compiled(config_path@, trigger_id@, views(raw@)) {
            Ok(s) => r matches Ok(v) && views(v@) == s,
            Err(m) => r matches Err(e) && e@ == m,
        },
{
    let ghost all = views(raw@);
    let mut out: Vec<String> = Vec::new();
    let mut i: usize = 0;
    while i < raw.len()
        invariant
            i <= raw@.len(),
            all == views(raw@),
            out@.len() == i,
            forall|k: int| 0 <= k < i ==> (#[trigger] out@[k])@ == norm(all[k]),
            forall|k: int| 0 <= k < i ==> norm(#[trigger] all[k]).len() > 0,
        decreases raw.len() - i,
    {
        let a = str_norm(raw[i].as_str());
        proof {
            assert(all[i as int] == raw@[i as int]@);
        }
        if a.as_str().is_empty() {
            return Err(trigger_message(config_path, trigger_id, "' includes blank action"));
        }
        out.push(a);
        i = i + 1;
    }
    proof {
        assert(views(out@) =~= all.map_values(|a: Seq<char>| norm(a)));
    }
    Ok(out)
}

/// Compiles a registered trigger of the config.
pub fn compile_registered_trigger(
    config_path: &str,
    trigger: &TriggerFile,
    directives: &Vec<String>,
    roles: &Vec<String>,
) -> (r: Result<DispatchTriggerConfig, String>)
    ensures
        match trigger_compiled(config_path@, *trigger, views(directives@), views(roles@)) {
            Ok(s) => r matches Ok(t) && trigger_view(t) == s,
            Err(m) => r matches Err(e) && e@ == m,
        },
{
    let id = str_trim(trigger.id.as_str());
    if id.is_empty() {
        return Err(cat3("dispatch config ", config_path, " contains trigger with empty id"));
    }
    let event_type = str_norm(trigger.event.as_str());
    if !(str_eq(event_type.as_str(), EVENT_ISSUES) || str_eq(
        event_type.as_str(),
        EVENT_ISSUE_COMMENT,
    )) {
        let what = cat3("' has unsupported event '", trigger.event.as_str(), "'");
        return Err(trigger_message(config_path, id, what.as_str()));
    }
    if trigger.actions.len() == 0 {
        return Err(trigger_message(config_path, id, "' has empty actions"));
    }
    let actions = match compile_actions(config_path, id, &trigger.actions) {
        Ok(v) => v,
        Err(e) => {
            return Err(e);
        },
    };
    let guards = trigger.guards;
    if guards.actor == DispatchTriggerActorGuard::RequireNotAssignee && guards.assignee
        == DispatchTriggerAssigneeGuard::Any {
        return Err(
            trigger_message(
                config_path,
                id,
                "' sets actor=require_not_assignee without assignee=require_single_codex",
            ),
        );
    }
    match compile_trigger_action(config_path, id, &trigger.action, directives, roles) {
        Err(e) => Err(e),
        Ok(action) => Ok(
            DispatchTriggerConfig {
                id: id.to_owned(),
                class: DispatchTriggerClass::Registered,
                priority: trigger.priority,
                matcher: DispatchTriggerMatcher { event_type, actions },
                guards,
                action,
                apply_guardrails: trigger.apply_guardrails,
            },
        ),
    }
}

/// A trigger on explicit directives.
pub open spec fn explicit_trigger(id: Seq<char>, event: Seq<char>, first: Seq<char>) -> TriggerSpec {
    TriggerSpec {
        id,
        class: DispatchTriggerClass::ExplicitDirective,
        priority: 0,
        event_type: event,
        actions: seq![first, "edited"@],
        guards: DispatchTriggerGuards {
            directive: DispatchTriggerDirectiveGuard::RequireParsed,
            assignee: DispatchTriggerAssigneeGuard::Any,
            actor: DispatchTriggerActorGuard::Any,
        },
        action: TriggerActionSpec {
            directive: None,
            role: RoleFrom::Parsed,
            reason_code: "explicit_directive"@,
        },
        apply_guardrails: false,
    }
}

/// The trigger on comments that answer a single assigned agent.
pub open spec fn assignee_trigger() -> TriggerSpec {
    TriggerSpec {
        id: "legacy.assignee.reply"@,
        class: DispatchTriggerClass::AssigneeReply,
        priority: 0,
        event_type: "issue_comment"@,
        actions: seq!["created"@, "edited"@],
        guards: DispatchTriggerGuards {
            directive: DispatchTriggerDirectiveGuard::RequireAbsent,
            assignee: DispatchTriggerAssigneeGuard::RequireSingleCodex,
            actor: DispatchTriggerActorGuard::RequireNotAssignee,
        },
        action: TriggerActionSpec {
            directive: Some("reply"@),
            role: RoleFrom::Assignee,
            reason_code: "assignee_reply"@,
        },
        apply_guardrails: true,
    }
}

/// The triggers that every config has unless it switches them off.
pub open spec fn legacy_triggers() -> Seq<TriggerSpec> {
    seq![
        explicit_trigger("legacy.explicit.issue_comment"@, "issue_comment"@, "created"@),
        explicit_trigger("legacy.explicit.issues"@, "issues"@, "opened"@),
        assignee_trigger(),
    ]
}

/// The views of triggers.
pub open spec fn trigger_views(v: Seq<DispatchTriggerConfig>) -> Seq<TriggerSpec> {
    v.map_values(|t: DispatchTriggerConfig| trigger_view(t))
}

/// The action names of a trigger of the pack.
fn two_actions(first: &str) -> (r: Vec<String>)
    ensures
        views(r@) == seq![first@, "edited"@],
{
    let mut v: Vec<String> = Vec::new();
    v.push(first.to_owned());
    v.push("edited".to_owned());
    proof {
        assert(views(v@) =~= seq![first@, "edited"@]);
    }
    v
}

/// A trigger on explicit directives.
fn explicit_trigger_of(id: &str, event: &str, first: &str) -> (r: DispatchTriggerConfig)
    ensures
        trigger_view(r) == explicit_trigger(id@, event@, first@),
{
    DispatchTriggerConfig {
        id: id.to_owned(),
        class: DispatchTriggerClass::ExplicitDirective,
        priority: 0,
        matcher: DispatchTriggerMatcher {
            event_type: event.to_owned(),
            actions: two_actions(first),
        },
        guards: DispatchTriggerGuards {
            directive: DispatchTriggerDirectiveGuard::RequireParsed,
            assignee: DispatchTriggerAssigneeGuard::Any,
            actor: DispatchTriggerActorGuard::Any,
        },
        action: DispatchTriggerAction {
            directive: DispatchTriggerDirectiveSource::ParsedDirective,
            target_role: DispatchTriggerRoleSource::ParsedDirectiveRole,
            reason_code: "explicit_directive".to_owned(),
        },
        apply_guardrails: false,
    }
}

/// The triggers that every config has unless it switches them off.
pub fn legacy_trigger_pack() -> (r: Vec<DispatchTriggerConfig>)
    ensures
        trigger_views(r@) == legacy_triggers(),
{
    let mut v: Vec<DispatchTriggerConfig> = Vec::new();
    v.push(explicit_trigger_of("legacy.explicit.issue_comment", EVENT_ISSUE_COMMENT, "created"));
    v.push(explicit_trigger_of("legacy.explicit.issues", EVENT_ISSUES, "opened"));
    let t = DispatchTriggerConfig {
        id: "legacy.assignee.reply".to_owned(),
        class: DispatchTriggerClass::AssigneeReply,
        priority: 0,
        matcher: DispatchTriggerMatcher {
            event_type: EVENT_ISSUE_COMMENT.to_owned(),
            actions: two_actions("created"),
        },
        guards: DispatchTriggerGuards {
            directive: DispatchTriggerDirectiveGuard::RequireAbsent,
            assignee: DispatchTriggerAssigneeGuard::RequireSingleCodex,
            actor: DispatchTriggerActorGuard::RequireNotAssignee,
        },
        action: DispatchTriggerAction {
            directive: DispatchTriggerDirectiveSource::Literal(DIRECTIVE_REPLY.to_owned()),
            target_role: DispatchTriggerRoleSource::SingleAssignee,
            reason_code: "assignee_reply".to_owned(),
        },
        apply_guardrails: true,
    };
    v.push(t);
    proof {
        assert(trigger_views(v@) =~= legacy_triggers());
    }
    v
}

/// A registered trigger that compiles names only directives that are known and configured, only
/// configured roles, and keeps the prefix of its reason code.
pub proof fn law_compiled_triggers_stay_in_config(
    path: Seq<char>,
    t: TriggerFile,
    directives: Seq<Seq<char>>,
    roles: Seq<Seq<char>>,
)
    requires
        trigger_compiled(path, t, directives, roles) is Ok,
    ensures
        ({
            let a = trigger_compiled(path, t, directives, roles)->Ok_0.action;
            &&& a.directive matches Some(d) ==> known_directive(d) && directives.contains(d)
            &&& a.role matches RoleFrom::Named(r) ==> roles.contains(r)
            &&& "registered_trigger:"@.is_prefix_of(a.reason_code)
        }),
{
}

/// A registered trigger compiles to what is written of it: its event and actions in lower case, its own
/// priority and guards, and the directive and role that it names or takes from the event. Its kind ranks
/// below the triggers that every config has.
pub proof fn law_triggers_compile_as_written(
    path: Seq<char>,
    t: TriggerFile,
    directives: Seq<Seq<char>>,
    roles: Seq<Seq<char>>,
)
    ensures
        trigger_compiled(path, t, directives, roles) matches Ok(c) ==> {
            &&& c.id == trim(t.id@)
            &&& c.id.len() > 0
            &&& c.class == DispatchTriggerClass::Registered
            &&& c.priority == t.priority
            &&& c.event_type == norm(t.event@)
            &&& c.event_type == "issues"@ || c.event_type == "issue_comment"@
            &&& c.actions.len() == t.actions@.len()
            &&& c.actions.len() > 0
            &&& forall|k: int|
                0 <= k < c.actions.len() ==> #[trigger] c.actions[k] == norm(t.actions@[k]@)
                    && c.actions[k].len() > 0
            &&& c.guards == t.guards
            &&& c.apply_guardrails == t.apply_guardrails
            &&& t.action.directive matches Some(d) ==> c.action.directive == Some(norm(d@))
            &&& t.action.directive is None ==> c.action.directive is None
            &&& t.action.target_role matches Some(r) ==> c.action.role == RoleFrom::Named(norm(r@))
            &&& t.action.target_role_from matches Some(s) ==> c.action.role == (if lower(trim(s@))
                == lower("parsed"@) {
                RoleFrom::Parsed
            } else {
                RoleFrom::Assignee
            })
            &&& t.action.reason_code matches Some(r) ==> (trim(r@).len() > 0 ==> c.action.reason_code
                == trim(r@))
            &&& t.action.reason_code is None ==> c.action.reason_code == "registered_trigger:"@ + c.id
            &&& !(t.guards.actor == DispatchTriggerActorGuard::RequireNotAssignee && t.guards.assignee
                == DispatchTriggerAssigneeGuard::Any)
        },
{
    if let Ok(c) = trigger_compiled(path, t, directives, roles) {
        assert forall|k: int| 0 <= k < c.actions.len() implies #[trigger] c.actions[k] == norm(
            t.actions@[k]@,
        ) && c.actions[k].len() > 0 by {
            assert(views(t.actions@)[k] == t.actions@[k]@);
        }
    }
}

/// What a registered trigger must have it must have exactly once: a source of its directive and one of its
/// role; a source that is not known is refused.
pub proof fn law_triggers_have_one_source(
    path: Seq<char>,
    id: Seq<char>,
    a: TriggerActionFile,
    directives: Seq<Seq<char>>,
    roles: Seq<Seq<char>>,
)
    ensures
        action_compiled(path, id, a, directives, roles) is Ok ==> (a.directive is Some
            <==> a.directive_from is None) && (a.target_role is Some <==> a.target_role_from is None),
        a.directive_from matches Some(s) ==> (lower(trim(s@)) != lower("parsed"@) ==> action_compiled(
            path,
            id,
            a,
            directives,
            roles,
        ) is Err),
        a.target_role_from matches Some(s) ==> (lower(trim(s@)) != lower("parsed"@) && lower(trim(s@))
            != lower("assignee"@) ==> action_compiled(path, id, a, directives, roles) is Err),
        a.directive_from matches Some(s) ==> (a.target_role_from matches Some(r) ==> (a.directive is None
            && a.target_role is None && a.reason_code is None && lower(trim(s@)) == lower("parsed"@)
            && lower(trim(r@)) == lower("parsed"@) ==> action_compiled(path, id, a, directives, roles)
            is Ok)),
{
    assert("registered_trigger:"@.is_prefix_of("registered_trigger:"@ + id)) by {
        assert(("registered_trigger:"@ + id).take("registered_trigger:"@.len() as int)
            =~= "registered_trigger:"@);
    }
}

/// An explicit directive wins over the reply to an assignee, and that over a registered trigger.
pub proof fn law_explicit_triggers_win()
    ensures
        DispatchTriggerClass::ExplicitDirective.precedence()
            > DispatchTriggerClass::AssigneeReply.precedence(),
        DispatchTriggerClass::AssigneeReply.precedence() > DispatchTriggerClass::Registered.precedence(),
{
}

/// The triggers that every config has: explicit directives in comments and issues, without guardrails, and
/// comments without a directive on an issue of a single agent, by someone else, which are replied to.
pub proof fn law_built_in_triggers(k: int)
    requires
        0 <= k < 3,
    ensures
        legacy_triggers().len() == 3,
        ({
            let t = legacy_triggers()[k];
            &&& t.class == DispatchTriggerClass::AssigneeReply <==> k == 2
            &&& t.apply_guardrails <==> k == 2
            &&& t.event_type == (if k == 1 {
                "issues"@
            } else {
                "issue_comment"@
            })
            &&& t.guards.directive == (if k == 2 {
                DispatchTriggerDirectiveGuard::RequireAbsent
            } else {
                DispatchTriggerDirectiveGuard::RequireParsed
            })
            &&& t.guards.actor == DispatchTriggerActorGuard::RequireNotAssignee <==> k == 2
            &&& t.guards.assignee == DispatchTriggerAssigneeGuard::RequireSingleCodex <==> k == 2
            &&& k == 2 ==> t.action.directive == Some("reply"@) && t.action.role == RoleFrom::Assignee
                && t.action.reason_code == "assignee_reply"@
            &&& k < 2 ==> t.action.directive is None && t.action.role == RoleFrom::Parsed
                && t.action.reason_code == "explicit_directive"@
        }),
{
}

} // verus!
