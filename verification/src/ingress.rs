//! The handling of one event from the forge: it is recorded once, decided about, and dispatched.

use crate::cli::DispatchMode;
use crate::errors::{runtime_state_for_dispatch_error, state_after, DispatchError};
use crate::lexicon::{DECISION_ACCEPTED, DIRECTIVE_IMPL};
use crate::text::{cat2, cat4, clone_opt, opt_is, opt_view, str_eq};
use crate::types::OrchdRuntimeState;
use crate::webhook::{context_text, decide, decided, decision_view, Decision, EventContext};
use vstd::prelude::*;
use vstd::string::*;

verus! {

/// An event as it is recorded.
#[verifier::ext_equal]
pub struct Event<S> {
    pub delivery_id: S,
    pub event_type: S,
    pub repo_full_name: S,
    pub issue_number: Option<u64>,
    pub action: Option<S>,
    pub actor_login: Option<S>,
    pub event_text: Option<S>,
    pub source_comment_id: Option<i64>,
    pub source_created_at: Option<S>,
    pub raw_json: S,
}

/// A recorded event at run time.
pub type EventRecord = Event<String>;

/// The view of a recorded event.
pub open spec fn event_view(e: EventRecord) -> Event<Seq<char>> {
    Event {
        delivery_id: e.delivery_id@,
        event_type: e.event_type@,
        repo_full_name: e.repo_full_name@,
        issue_number: e.issue_number,
        action: opt_view(e.action),
        actor_login: opt_view(e.actor_login),
        event_text: opt_view(e.event_text),
        source_comment_id: e.source_comment_id,
        source_created_at: opt_view(e.source_created_at),
        raw_json: e.raw_json@,
    }
}

/// The event as it is recorded.
pub open spec fn recorded(
    event_type: Seq<char>,
    delivery_id: Seq<char>,
    action: Option<Seq<char>>,
    context: Option<EventContext>,
    raw_json: Seq<char>,
) -> Event<Seq<char>> {
    match context {
        Some(c) => Event {
            delivery_id,
            event_type,
            repo_full_name: c.repo_full_name@,
            issue_number: c.issue_number,
            action,
            actor_login: opt_view(c.actor_login),
            event_text: opt_view(c.text),
            source_comment_id: c.source_comment_id,
            source_created_at: opt_view(c.source_created_at),
            raw_json,
        },
        None => Event {
            delivery_id,
            event_type,
            repo_full_name: "<unknown>"@,
            issue_number: None,
            action,
            actor_login: None,
            event_text: None,
            source_comment_id: None,
            source_created_at: None,
            raw_json,
        },
    }
}

/// Which answer the handling waits for.
#[derive(Clone, Copy, PartialEq, Eq, Structural)]
pub enum IngressPhase {
    Event,
    Decision,
    Queued,
    Comment,
    Inflight,
    Dispatch,
    Running,
    Cursor,
    Failure,
    Update,
    Over,
}

/// Where the handling stands.
#[verifier::ext_equal]
pub struct Ingress<S> {
    pub phase: IngressPhase,
    pub mode: DispatchMode,
    pub comment_echo: bool,
    pub event: Event<S>,
    pub decision: Decision<S>,
    pub event_id: i64,
    pub decision_id: i64,
    pub status_projected: bool,
    pub status_error: Option<S>,
    pub dispatch_note: S,
}

/// What the forge is answered.
#[verifier::ext_equal]
pub struct Outcome<S> {
    pub status: S,
    pub delivery_id: S,
    pub event_type: S,
    pub decision: S,
    pub reason_code: S,
    pub duplicate: bool,
}

/// What is done next.
#[verifier::ext_equal]
pub enum IngressAction<S> {
    /// Record the event; answered with its number, or with none where it was there before.
    RecordEvent,
    /// Note that the repository was seen, and record the decision; answered with its number.
    RecordDecision,
    /// Show the state on the issue.
    Project(OrchdRuntimeState),
    /// Comment on the issue.
    PostComment(S),
    /// Look for a dispatch that changes the code of the repository; answered with its number.
    QueryRepoInflight,
    /// Dispatch the decision.
    Dispatch,
    /// Note that the role has seen the issue up to the event.
    AdvanceCursor(S),
    /// Record how the decision was shown.
    UpdateDecision { projected: bool, error: Option<S> },
    /// Answer the forge.
    Answer(Outcome<S>),
    /// Refuse the event, with the error.
    Refuse(S),
}

/// An answer from outside.
#[verifier::ext_equal]
pub enum IngressReply<S> {
    Done,
    Number(i64),
    Nothing,
    DispatchFailed(DispatchError),
    Failed(S),
}

/// The answers that fit a phase.
pub open spec fn fits<S>(phase: IngressPhase, reply: IngressReply<S>) -> bool {
    match phase {
        IngressPhase::Event => reply is Number || reply is Nothing || reply is Failed,
        IngressPhase::Decision => reply is Number || reply is Failed,
        IngressPhase::Inflight => reply is Number || reply is Nothing || reply is Failed,
        IngressPhase::Dispatch => reply is Done || reply is DispatchFailed,
        IngressPhase::Over => false,
        _ => reply is Done || reply is Failed,
    }
}

/// The handling in contracts.
pub type IngressSpec = Ingress<Seq<char>>;

/// A step in contracts.
pub type IngressStepSpec = (IngressSpec, IngressAction<Seq<char>>);

/// A step at run time.
pub type IngressStep = (Ingress<String>, IngressAction<String>);

/// The view of the handling.
pub open spec fn ingress_view(s: Ingress<String>) -> IngressSpec {
    Ingress {
        phase: s.phase,
        mode: s.mode,
        comment_echo: s.comment_echo,
        event: event_view(s.event),
        decision: decision_view(s.decision),
        event_id: s.event_id,
        decision_id: s.decision_id,
        status_projected: s.status_projected,
        status_error: opt_view(s.status_error),
        dispatch_note: s.dispatch_note@,
    }
}

/// The view of an action.
pub open spec fn action_view(a: IngressAction<String>) -> IngressAction<Seq<char>> {
    match a {
        IngressAction::RecordEvent => IngressAction::RecordEvent,
        IngressAction::RecordDecision => IngressAction::RecordDecision,
        IngressAction::Project(x) => IngressAction::Project(x),
        IngressAction::PostComment(t) => IngressAction::PostComment(t@),
        IngressAction::QueryRepoInflight => IngressAction::QueryRepoInflight,
        IngressAction::Dispatch => IngressAction::Dispatch,
        IngressAction::AdvanceCursor(t) => IngressAction::AdvanceCursor(t@),
        IngressAction::UpdateDecision { projected, error } => IngressAction::UpdateDecision {
            projected,
            error: opt_view(error),
        },
        IngressAction::Answer(o) => IngressAction::Answer(
            Outcome {
                status: o.status@,
                delivery_id: o.delivery_id@,
                event_type: o.event_type@,
                decision: o.decision@,
                reason_code: o.reason_code@,
                duplicate: o.duplicate,
            },
        ),
        IngressAction::Refuse(t) => IngressAction::Refuse(t@),
    }
}

/// The view of a step.
pub open spec fn step_view(r: IngressStep) -> IngressStepSpec {
    (ingress_view(r.0), action_view(r.1))
}

/// The view of an answer.
pub open spec fn reply_view(r: IngressReply<String>) -> IngressReply<Seq<char>> {
    match r {
        IngressReply::Done => IngressReply::Done,
        IngressReply::Number(n) => IngressReply::Number(n),
        IngressReply::Nothing => IngressReply::Nothing,
        IngressReply::DispatchFailed(e) => IngressReply::DispatchFailed(e),
        IngressReply::Failed(t) => IngressReply::Failed(t@),
    }
}

/// The handling waits for the answer to an action.
pub open spec fn waits(
    s: IngressSpec,
    phase: IngressPhase,
    action: IngressAction<Seq<char>>,
) -> IngressStepSpec {
    (Ingress { phase, ..s }, action)
}

/// The event is refused.
pub open spec fn refused(s: IngressSpec, error: Seq<char>) -> IngressStepSpec {
    waits(s, IngressPhase::Over, IngressAction::Refuse(error))
}

/// What was shown of the decision is recorded.
pub open spec fn updating(s: IngressSpec) -> IngressStepSpec {
    waits(
        s,
        IngressPhase::Update,
        IngressAction::UpdateDecision { projected: s.status_projected, error: s.status_error },
    )
}

/// The handling with an error, where it has none yet.
pub open spec fn blamed(s: IngressSpec, error: Seq<char>) -> IngressSpec {
    if s.status_error is None {
        Ingress { status_error: Some(error), ..s }
    } else {
        s
    }
}

/// The handling after a try to show a state on the issue.
pub open spec fn projected(s: IngressSpec, reply: IngressReply<Seq<char>>) -> IngressSpec {
    match reply {
        IngressReply::Failed(e) => blamed(s, e),
        _ => Ingress { status_projected: true, ..s },
    }
}

/// A text, or a dash.
pub open spec fn or_dash(t: Option<Seq<char>>) -> Seq<char> {
    match t {
        Some(x) => x,
        None => "-"@,
    }
}

/// The comment that tells of a decision that is not carried out.
pub open spec fn echo(s: IngressSpec) -> Seq<char> {
    "orchd: accepted (dry-run) directive="@ + or_dash(s.decision.directive) + " role="@ + or_dash(
        s.decision.target_role,
    ) + " reason="@ + s.decision.reason_code + " would_dispatch=true delivery="@
        + s.event.delivery_id
}

/// After the decision was recorded: an accepted one of an issue is shown as queued.
pub open spec fn after_decision(s: IngressSpec) -> IngressStepSpec {
    if s.decision.decision == DECISION_ACCEPTED@ {
        if s.event.issue_number is Some {
            waits(
                s,
                IngressPhase::Queued,
                IngressAction::Project(OrchdRuntimeState::Queued),
            )
        } else {
            updating(Ingress { status_error: Some("missing issue number"@), ..s })
        }
    } else {
        updating(s)
    }
}

/// After the issue was shown as queued, or was not: the dispatch goes ahead in either case, but for a
/// second one that changes the code of a repository.
pub open spec fn after_queued(s: IngressSpec) -> IngressStepSpec {
    match s.mode {
        DispatchMode::DryRun => if s.comment_echo {
            waits(s, IngressPhase::Comment, IngressAction::PostComment(echo(s)))
        } else {
            updating(s)
        },
        DispatchMode::Exec => if s.decision.directive == Some(DIRECTIVE_IMPL@) {
            waits(s, IngressPhase::Inflight, IngressAction::QueryRepoInflight)
        } else {
            waits(s, IngressPhase::Dispatch, IngressAction::Dispatch)
        },
    }
}

/// How the handling goes on from an answer.
pub open spec fn next(s: IngressSpec, reply: IngressReply<Seq<char>>) -> IngressStepSpec {
    match s.phase {
        IngressPhase::Event => match reply {
            IngressReply::Number(id) => waits(
                Ingress { event_id: id, ..s },
                IngressPhase::Decision,
                IngressAction::RecordDecision,
            ),
            IngressReply::Failed(e) => refused(s, e),
            _ => waits(
                s,
                IngressPhase::Over,
                IngressAction::Answer(
                    Outcome {
                        status: "duplicate"@,
                        delivery_id: s.event.delivery_id,
                        event_type: s.event.event_type,
                        decision: "duplicate"@,
                        reason_code: "duplicate_delivery"@,
                        duplicate: true,
                    },
                ),
            ),
        },
        IngressPhase::Decision => match reply {
            IngressReply::Number(id) => after_decision(Ingress { decision_id: id, ..s }),
            IngressReply::Failed(e) => refused(s, e),
            _ => arbitrary(),
        },
        IngressPhase::Queued => after_queued(projected(s, reply)),
        IngressPhase::Comment => match reply {
            IngressReply::Failed(e) => updating(blamed(s, e)),
            _ => updating(s),
        },
        IngressPhase::Inflight => match reply {
            IngressReply::Number(_) => updating(s),
            IngressReply::Failed(e) => waits(
                Ingress {
                    status_error: Some("failed checking repo inflight impl dispatch: "@ + e),
                    ..s
                },
                IngressPhase::Dispatch,
                IngressAction::Dispatch,
            ),
            _ => waits(s, IngressPhase::Dispatch, IngressAction::Dispatch),
        },
        IngressPhase::Dispatch => match reply {
            IngressReply::DispatchFailed(e) => waits(
                Ingress { dispatch_note: "dispatch "@ + e.code() + ": "@ + e.says(), ..s },
                IngressPhase::Failure,
                IngressAction::Project(state_after(e)),
            ),
            _ => waits(
                s,
                IngressPhase::Running,
                IngressAction::Project(OrchdRuntimeState::Running),
            ),
        },
        IngressPhase::Running => {
            let n = projected(s, reply);
            match s.decision.target_role {
                Some(role) => waits(n, IngressPhase::Cursor, IngressAction::AdvanceCursor(role)),
                None => updating(n),
            }
        },
        IngressPhase::Cursor => match reply {
            IngressReply::Failed(e) => updating(
                blamed(
                    s,
                    "failed updating issue cursor for role "@ + s.decision.target_role->0 + ": "@
                        + e,
                ),
            ),
            _ => updating(s),
        },
        IngressPhase::Failure => updating(blamed(projected(s, reply), s.dispatch_note)),
        IngressPhase::Update => match reply {
            IngressReply::Failed(e) => refused(s, e),
            _ => waits(
                s,
                IngressPhase::Over,
                IngressAction::Answer(
                    Outcome {
                        status: "processed"@,
                        delivery_id: s.event.delivery_id,
                        event_type: s.event.event_type,
                        decision: s.decision.decision,
                        reason_code: s.decision.reason_code,
                        duplicate: false,
                    },
                ),
            ),
        },
        IngressPhase::Over => refused(s, Seq::empty()),
    }
}

/// A cursor is advanced for the role of the decision.
pub open spec fn consistent(s: IngressSpec) -> bool {
    s.phase == IngressPhase::Cursor ==> s.decision.target_role is Some
}

/// The state in which the handling begins.
pub open spec fn fresh(
    mode: DispatchMode,
    comment_echo: bool,
    event: Event<Seq<char>>,
    decision: Decision<Seq<char>>,
) -> IngressSpec {
    Ingress {
        phase: IngressPhase::Event,
        mode,
        comment_echo,
        event,
        decision,
        event_id: 0,
        decision_id: 0,
        status_projected: false,
        status_error: None,
        dispatch_note: Seq::empty(),
    }
}

/// Begins the handling of an event.
pub fn begin_webhook(
    mode: DispatchMode,
    comment_echo: bool,
    event_type: &str,
    delivery_id: &str,
    action: &Option<String>,
    context: Option<&EventContext>,
    raw_json: &str,
) -> (r: IngressStep)
    ensures
        ({
            let c = match context {
                Some(x) => Some(*x),
                None => None,
            };
            step_view(r) == (
                fresh(
                    mode,
                    comment_echo,
                    recorded(event_type@, delivery_id@, opt_view(*action), c, raw_json@),
                    decided(event_type@, context_text(c)),
                ),
                IngressAction::<Seq<char>>::RecordEvent,
            )
        }),
        consistent(ingress_view(r.0)),
{
    let decision = decide(event_type, context);
    let event = match context {
        Some(c) => Event {
            delivery_id: delivery_id.to_owned(),
            event_type: event_type.to_owned(),
            repo_full_name: c.repo_full_name.clone(),
            issue_number: c.issue_number,
            action: clone_opt(action),
            actor_login: clone_opt(&c.actor_login),
            event_text: clone_opt(&c.text),
            source_comment_id: c.source_comment_id,
            source_created_at: clone_opt(&c.source_created_at),
            raw_json: raw_json.to_owned(),
        },
        None => Event {
            delivery_id: delivery_id.to_owned(),
            event_type: event_type.to_owned(),
            repo_full_name: "<unknown>".to_owned(),
            issue_number: None,
            action: clone_opt(action),
            actor_login: None,
            event_text: None,
            source_comment_id: None,
            source_created_at: None,
            raw_json: raw_json.to_owned(),
        },
    };
    let s = Ingress {
        phase: IngressPhase::Event,
        mode,
        comment_echo,
        event,
        decision,
        event_id: 0,
        decision_id: 0,
        status_projected: false,
        status_error: None,
        dispatch_note: String::new(),
    };
    proof {
        assert(s.dispatch_note@ =~= Seq::<char>::empty());
    }
    (s, IngressAction::RecordEvent)
}

/// The handling waits for the answer to an action.
fn wait(s: Ingress<String>, phase: IngressPhase, action: IngressAction<String>) -> (r: IngressStep)
    ensures
        step_view(r) == waits(ingress_view(s), phase, action_view(action)),
{
    let mut s = s;
    s.phase = phase;
    (s, action)
}

/// What was shown of the decision is recorded.
fn update(s: Ingress<String>) -> (r: IngressStep)
    ensures
        step_view(r) == updating(ingress_view(s)),
{
    let projected = s.status_projected;
    let error = clone_opt(&s.status_error);
    wait(s, IngressPhase::Update, IngressAction::UpdateDecision { projected, error })
}

/// The handling with an error, where it has none yet.
fn blame(s: Ingress<String>, error: String) -> (r: Ingress<String>)
    ensures
        ingress_view(r) == blamed(ingress_view(s), error@),
{
    let mut s = s;
    if s.status_error.is_none() {
        s.status_error = Some(error);
    }
    s
}

/// The handling after a try to show a state on the issue.
fn project(s: Ingress<String>, reply: IngressReply<String>) -> (r: Ingress<String>)
    ensures
        ingress_view(r) == projected(ingress_view(s), reply_view(reply)),
{
    match reply {
        IngressReply::Failed(e) => blame(s, e),
        _ => {
            let mut s = s;
            s.status_projected = true;
            s
        },
    }
}

/// A text, or a dash.
fn dash(t: &Option<String>) -> (r: String)
    ensures
        r@ == or_dash(opt_view(*t)),
{
    match t {
        Some(x) => x.clone(),
        None => "-".to_owned(),
    }
}

/// After the decision was recorded.
fn on_decision(s: Ingress<String>) -> (r: IngressStep)
    ensures
        step_view(r) == after_decision(ingress_view(s)),
{
    if str_eq(s.decision.decision.as_str(), DECISION_ACCEPTED) {
        if s.event.issue_number.is_some() {
            wait(s, IngressPhase::Queued, IngressAction::Project(OrchdRuntimeState::Queued))
        } else {
            let mut s = s;
            s.status_error = Some("missing issue number".to_owned());
            update(s)
        }
    } else {
        update(s)
    }
}

/// After the issue was shown as queued, or was not.
fn on_queued(s: Ingress<String>) -> (r: IngressStep)
    ensures
        step_view(r) == after_queued(ingress_view(s)),
{
    match s.mode {
        DispatchMode::DryRun => if s.comment_echo {
            let directive = dash(&s.decision.directive);
            let role = dash(&s.decision.target_role);
            let mut m = cat4(
                "orchd: accepted (dry-run) directive=",
                directive.as_str(),
                " role=",
                role.as_str(),
            );
            m.append(" reason=");
            m.append(s.decision.reason_code.as_str());
            m.append(" would_dispatch=true delivery=");
            m.append(s.event.delivery_id.as_str());
            wait(s, IngressPhase::Comment, IngressAction::PostComment(m))
        } else {
            update(s)
        },
        DispatchMode::Exec => if opt_is(&s.decision.directive, DIRECTIVE_IMPL) {
            wait(s, IngressPhase::Inflight, IngressAction::QueryRepoInflight)
        } else {
            wait(s, IngressPhase::Dispatch, IngressAction::Dispatch)
        },
    }
}

/// Takes the handling on from an answer.
pub fn process_webhook(s: Ingress<String>, reply: IngressReply<String>) -> (r: IngressStep)
    requires
        fits(s.phase, reply),
        consistent(ingress_view(s)),
    ensures
        step_view(r) == next(ingress_view(s), reply_view(reply)),
        consistent(ingress_view(r.0)),
{
    match s.phase {
        IngressPhase::Event => match reply {
            IngressReply::Number(id) => {
                let mut s = s;
                s.event_id = id;
                wait(s, IngressPhase::Decision, IngressAction::RecordDecision)
            },
            IngressReply::Failed(e) => wait(s, IngressPhase::Over, IngressAction::Refuse(e)),
            _ => {
                let o = Outcome {
                    status: "duplicate".to_owned(),
                    delivery_id: s.event.delivery_id.clone(),
                    event_type: s.event.event_type.clone(),
                    decision: "duplicate".to_owned(),
                    reason_code: "duplicate_delivery".to_owned(),
                    duplicate: true,
                };
                wait(s, IngressPhase::Over, IngressAction::Answer(o))
            },
        },
        IngressPhase::Decision => match reply {
            IngressReply::Number(id) => {
                let mut s = s;
                s.decision_id = id;
                on_decision(s)
            },
            IngressReply::Failed(e) => wait(s, IngressPhase::Over, IngressAction::Refuse(e)),
            _ => update(s),
        },
        IngressPhase::Queued => on_queued(project(s, reply)),
        IngressPhase::Comment => match reply {
            IngressReply::Failed(e) => update(blame(s, e)),
            _ => update(s),
        },
        IngressPhase::Inflight => match reply {
            IngressReply::Number(_) => update(s),
            IngressReply::Failed(e) => {
                let mut s = s;
                s.status_error = Some(
                    cat2("failed checking repo inflight impl dispatch: ", e.as_str()),
                );
                wait(s, IngressPhase::Dispatch, IngressAction::Dispatch)
            },
            _ => wait(s, IngressPhase::Dispatch, IngressAction::Dispatch),
        },
        IngressPhase::Dispatch => match reply {
            IngressReply::DispatchFailed(e) => {
                let says = e.message();
                let mut s = s;
                s.dispatch_note = cat4("dispatch ", e.reason_code(), ": ", says.as_str());
                let state = runtime_state_for_dispatch_error(&e);
                wait(s, IngressPhase::Failure, IngressAction::Project(state))
            },
            _ => wait(
                s,
                IngressPhase::Running,
                IngressAction::Project(OrchdRuntimeState::Running),
            ),
        },
        IngressPhase::Running => {
            let n = project(s, reply);
            let role = clone_opt(&n.decision.target_role);
            match role {
                Some(x) => wait(n, IngressPhase::Cursor, IngressAction::AdvanceCursor(x)),
                None => update(n),
            }
        },
        IngressPhase::Cursor => match reply {
            IngressReply::Failed(e) => {
                let role = dash(&s.decision.target_role);
                let m = cat4(
                    "failed updating issue cursor for role ",
                    role.as_str(),
                    ": ",
                    e.as_str(),
                );
                update(blame(s, m))
            },
            _ => update(s),
        },
        IngressPhase::Failure => {
            let note = s.dispatch_note.clone();
            update(blame(project(s, reply), note))
        },
        IngressPhase::Update => match reply {
            IngressReply::Failed(e) => wait(s, IngressPhase::Over, IngressAction::Refuse(e)),
            _ => {
                let o = Outcome {
                    status: "processed".to_owned(),
                    delivery_id: s.event.delivery_id.clone(),
                    event_type: s.event.event_type.clone(),
                    decision: s.decision.decision.clone(),
                    reason_code: s.decision.reason_code.clone(),
                    duplicate: false,
                };
                wait(s, IngressPhase::Over, IngressAction::Answer(o))
            },
        },
        IngressPhase::Over => wait(s, IngressPhase::Over, IngressAction::Refuse(String::new())),
    }
}

/// The kind of an event, by what the forge calls it.
pub fn event_type_of(called: &Option<String>) -> (r: String)
    ensures
        r@ == (match *called {
            Some(x) => x@,
            None => "unknown"@,
        }),
{
    match called {
        Some(x) => x.clone(),
        None => "unknown".to_string(),
    }
}

/// The status of an answer to the forge.
pub open spec fn answer_status<S>(action: IngressAction<S>) -> u16 {
    match action {
        IngressAction::Answer(o) => if o.duplicate {
            200
        } else {
            202
        },
        _ => 400,
    }
}

/// The status with which the forge is answered: one for a new event, one for an event that was there
/// before, and one for an event that is refused.
pub fn webhook_status(action: &IngressAction<String>) -> (r: u16)
    ensures
        r == answer_status(*action),
        r == (match *action {
            IngressAction::Answer(o) => if o.duplicate {
                200u16
            } else {
                202u16
            },
            _ => 400u16,
        }),
{
    match action {
        IngressAction::Answer(o) => if o.duplicate {
            200
        } else {
            202
        },
        _ => 400,
    }
}

/// An event that was recorded before is answered at once: nothing is decided or dispatched for it.
pub proof fn law_duplicates_are_answered_at_once(s: IngressSpec)
    requires
        s.phase == IngressPhase::Event,
    ensures
        ({
            let n = next(s, IngressReply::Nothing);
            &&& n.0.phase == IngressPhase::Over
            &&& n.1 matches IngressAction::Answer(o) && o.duplicate && o.delivery_id
                == s.event.delivery_id
        }),
{
}

/// The facts of the event that a handling is about, and what was decided, stay as they are.
pub open spec fn same_matter(a: IngressSpec, b: IngressSpec) -> bool {
    a.event == b.event && a.decision == b.decision && a.mode == b.mode
}

/// Past its decision the handling is about an accepted decision of an issue.
pub open spec fn accepted_so_far(s: IngressSpec) -> bool {
    match s.phase {
        IngressPhase::Event | IngressPhase::Decision | IngressPhase::Update
        | IngressPhase::Over => true,
        IngressPhase::Queued => s.decision.decision == DECISION_ACCEPTED@,
        IngressPhase::Comment => s.decision.decision == DECISION_ACCEPTED@ && s.mode
            == DispatchMode::DryRun,
        _ => s.decision.decision == DECISION_ACCEPTED@ && s.mode == DispatchMode::Exec,
    }
}

/// Only an accepted decision is dispatched, never in a dry run; and the handling keeps to its event and
/// its decision.
pub proof fn law_only_accepted_decisions_are_dispatched(
    s: IngressSpec,
    reply: IngressReply<Seq<char>>,
)
    requires
        fits(s.phase, reply),
        accepted_so_far(s),
    ensures
        accepted_so_far(next(s, reply).0),
        same_matter(s, next(s, reply).0),
        next(s, reply).1 is Dispatch ==> s.decision.decision == DECISION_ACCEPTED@ && s.mode
            == DispatchMode::Exec,
{
}

/// A second dispatch that would change the code of a repository is put off: nothing is dispatched for
/// it now.
pub proof fn law_busy_repositories_wait(s: IngressSpec, inflight: i64)
    requires
        s.phase == IngressPhase::Inflight,
    ensures
        next(s, IngressReply::Number(inflight)).1 is UpdateDecision,
{
}

/// An accepted decision of an issue is shown as queued and then, but in a dry run, dispatched, whether or
/// not it could be shown; one that changes code only where none is under way in the repository, or where
/// that could not be told. A decision that is not accepted, or has no issue, is recorded and nothing else.
pub proof fn law_accepted_decisions_are_dispatched(
    s: IngressSpec,
    id: i64,
    shown: IngressReply<Seq<char>>,
    e: Seq<char>,
)
    requires
        s.phase == IngressPhase::Decision,
        shown is Done || shown is Failed,
    ensures
        ({
            let n = next(s, IngressReply::Number(id));
            let q = next(n.0, shown);
            let accepted = s.decision.decision == "accepted"@;
            &&& n.0.decision_id == id
            &&& accepted && s.event.issue_number is Some ==> n.1 == IngressAction::<Seq<char>>::Project(
                OrchdRuntimeState::Queued,
            )
            &&& !accepted || s.event.issue_number is None ==> n.1 is UpdateDecision
            &&& accepted && s.event.issue_number is None ==> (n.1 matches
                IngressAction::UpdateDecision { error, .. } && error == Some("missing issue number"@))
            &&& accepted && s.event.issue_number is Some ==> {
                &&& shown is Done ==> q.0.status_projected
                &&& s.mode == DispatchMode::Exec && s.decision.directive != Some("impl"@) ==> q.1
                    is Dispatch
                &&& s.mode == DispatchMode::Exec && s.decision.directive == Some("impl"@) ==> q.1
                    is QueryRepoInflight && next(q.0, IngressReply::Nothing).1 is Dispatch && next(
                    q.0,
                    IngressReply::Failed(e),
                ).1 is Dispatch && next(q.0, IngressReply::Number(id)).1 is UpdateDecision
                &&& s.mode == DispatchMode::DryRun && s.comment_echo ==> q.1 is PostComment
                &&& s.mode == DispatchMode::DryRun && !s.comment_echo ==> q.1 is UpdateDecision
            }
        }),
{
}

/// What became of a dispatch is shown on the issue: running where it was started, with the role's place in
/// the history moved to the event; else the state that goes with the error, which is recorded.
pub proof fn law_dispatched_decisions_are_shown(
    s: IngressSpec,
    error: DispatchError,
    shown: IngressReply<Seq<char>>,
)
    requires
        s.phase == IngressPhase::Dispatch,
        shown is Done || shown is Failed,
    ensures
        next(s, IngressReply::Done).1 == IngressAction::<Seq<char>>::Project(OrchdRuntimeState::Running),
        ({
            let n = next(next(s, IngressReply::Done).0, shown);
            match s.decision.target_role {
                Some(role) => n.1 == IngressAction::<Seq<char>>::AdvanceCursor(role),
                None => n.1 is UpdateDecision,
            }
        }),
        next(s, IngressReply::DispatchFailed(error)).1 == IngressAction::<Seq<char>>::Project(
            state_after(error),
        ),
        ({
            let n = next(next(s, IngressReply::DispatchFailed(error)).0, shown);
            n.1 matches IngressAction::UpdateDecision { projected, error: recorded } && recorded is Some
                && (shown is Done ==> projected) && (s.status_error is None && shown is Done
                ==> recorded == Some("dispatch "@ + error.code() + ": "@ + error.says())) && (
            s.status_error is Some ==> recorded == s.status_error)
        }),
{
}

/// A new event is decided about, and answered with its decision once that was recorded; where the store
/// fails, the event is refused.
pub proof fn law_events_are_recorded_before_they_are_answered(
    s: IngressSpec,
    id: i64,
    e: Seq<char>,
)
    ensures
        s.phase == IngressPhase::Event ==> next(s, IngressReply::Number(id)).1 is RecordDecision && next(
            s,
            IngressReply::Number(id),
        ).0.event_id == id && next(s, IngressReply::Failed(e)).1 == IngressAction::<
            Seq<char>,
        >::Refuse(e),
        s.phase == IngressPhase::Decision || s.phase == IngressPhase::Update ==> next(
            s,
            IngressReply::Failed(e),
        ).1 == IngressAction::<Seq<char>>::Refuse(e),
        s.phase == IngressPhase::Update ==> (next(s, IngressReply::Done).1 matches
            IngressAction::Answer(o) && !o.duplicate && o.status == "processed"@ && o.delivery_id
            == s.event.delivery_id && o.event_type == s.event.event_type && o.decision
            == s.decision.decision && o.reason_code == s.decision.reason_code),
        forall|r: IngressReply<Seq<char>>|
            fits(s.phase, r) && (#[trigger] next(s, r)).1 is Answer ==> s.phase == IngressPhase::Update
                || (s.phase == IngressPhase::Event && r is Nothing),
{
}

/// The event is recorded with what the forge said of it.
pub proof fn law_recorded_events_are_what_was_said(
    event_type: Seq<char>,
    delivery_id: Seq<char>,
    action: Option<Seq<char>>,
    c: EventContext,
    raw: Seq<char>,
)
    ensures
        ({
            let e = recorded(event_type, delivery_id, action, Some(c), raw);
            &&& e.delivery_id == delivery_id
            &&& e.event_type == event_type
            &&& e.action == action
            &&& e.raw_json == raw
            &&& e.repo_full_name == c.repo_full_name@
            &&& e.issue_number == c.issue_number
            &&& e.actor_login == opt_view(c.actor_login)
            &&& e.event_text == opt_view(c.text)
            &&& e.source_comment_id == c.source_comment_id
            &&& e.source_created_at == opt_view(c.source_created_at)
        }),
        ({
            let e = recorded(event_type, delivery_id, action, None, raw);
            &&& e.delivery_id == delivery_id
            &&& e.event_type == event_type
            &&& e.raw_json == raw
            &&& e.issue_number is None
            &&& e.actor_login is None
            &&& e.event_text is None
        }),
{
}

/// What is asked for is what is waited for, and nothing after the end; the event, the decision and how they
/// are taken stay.
pub proof fn law_webhooks_wait_for_what_they_ask(s: IngressSpec, reply: IngressReply<Seq<char>>)
    requires
        consistent(s),
        fits(s.phase, reply),
    ensures
        ({
            let n = next(s, reply);
            let p = n.0.phase;
            &&& n.1 is RecordDecision <==> p == IngressPhase::Decision
            &&& n.1 is Project <==> p == IngressPhase::Queued || p == IngressPhase::Running || p
                == IngressPhase::Failure
            &&& p == IngressPhase::Queued <==> n.1 == IngressAction::<Seq<char>>::Project(
                OrchdRuntimeState::Queued,
            ) && s.phase == IngressPhase::Decision
            &&& p == IngressPhase::Running ==> n.1 == IngressAction::<Seq<char>>::Project(
                OrchdRuntimeState::Running,
            ) && s.phase == IngressPhase::Dispatch
            &&& p == IngressPhase::Failure ==> s.phase == IngressPhase::Dispatch
            &&& n.1 is PostComment <==> p == IngressPhase::Comment
            &&& n.1 is QueryRepoInflight <==> p == IngressPhase::Inflight
            &&& n.1 is Dispatch <==> p == IngressPhase::Dispatch
            &&& n.1 is AdvanceCursor <==> p == IngressPhase::Cursor
            &&& n.1 is UpdateDecision <==> p == IngressPhase::Update
            &&& n.1 is Answer || n.1 is Refuse <==> p == IngressPhase::Over
            &&& n.0.mode == s.mode && n.0.comment_echo == s.comment_echo
            &&& n.0.event == s.event && n.0.decision == s.decision
        }),
{
}

/// The forge is told that an event was accepted, that it was there before, or that it was refused.
pub proof fn law_answers_have_their_status(action: IngressAction<Seq<char>>)
    ensures
        answer_status(action) == 202 <==> (action matches IngressAction::Answer(o) && !o.duplicate),
        answer_status(action) == 200 <==> (action matches IngressAction::Answer(o) && o.duplicate),
        !(action is Answer) ==> answer_status(action) == 400,
{
}

/// The comment on a decision that is not carried out tells what would be done by whom, and why.
pub proof fn law_echoes_tell_what_would_be_done(s: IngressSpec, directive: Seq<char>, role: Seq<char>)
    ensures
        s.decision.directive == Some(directive) && s.decision.target_role == Some(role) ==> echo(s)
            == "orchd: accepted (dry-run) directive="@ + directive + " role="@ + role + " reason="@
            + s.decision.reason_code + " would_dispatch=true delivery="@ + s.event.delivery_id,
        or_dash(None) == "-"@,
{
}

} // verus!
