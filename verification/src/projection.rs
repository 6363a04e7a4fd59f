//! How an issue shows its dispatch: the labels that it gets, and who writes them.

use crate::config_load::{find_role, DispatchConfig};
use crate::dispatch_config::{role_names, role_views};
use crate::text::{
    add_text, blank, clone_opt, first_at, has_key, opt_view, str_blank, str_trim, trim, views,
};
use crate::types::OrchdRuntimeState;
use vstd::prelude::*;
use vstd::string::*;

verus! {

/// Who writes to an issue: the forge's command line tool with its configuration and a token.
#[verifier::ext_equal]
pub struct Identity<S> {
    pub forgejoctl_bin: S,
    pub config_file: Option<S>,
    pub token_file: S,
}

/// Who writes to an issue, at run time.
pub type CommentIdentity = Identity<String>;

/// The view of who writes to an issue.
pub open spec fn identity_view(i: CommentIdentity) -> Identity<Seq<char>> {
    Identity {
        forgejoctl_bin: i.forgejoctl_bin@,
        config_file: opt_view(i.config_file),
        token_file: i.token_file@,
    }
}

/// The token with which an issue is written to: that of the control plane, or of the role.
pub open spec fn writing_token(c: DispatchConfig, role: Option<Seq<char>>) -> Option<Seq<char>> {
    match opt_view(c.control_plane_token_file) {
        Some(t) => Some(t),
        None => match role {
            Some(r) => if has_key(role_names(role_views(c.roles@)), r) {
                Some(role_views(c.roles@)[first_at(role_names(role_views(c.roles@)), r)].token_file)
            } else {
                None
            },
            None => None,
        },
    }
}

/// Who writes to the issue of a decision.
pub fn dispatch_comment_identity(
    config: &Option<DispatchConfig>,
    target_role: &Option<String>,
    forgejo_config_file: &Option<String>,
) -> (r: Option<CommentIdentity>)
    ensures
        match *config {
            None => r is None,
            Some(c) => match writing_token(c, opt_view(*target_role)) {
                None => r is None,
                Some(t) => r matches Some(i) && identity_view(i) == (Identity {
                    forgejoctl_bin: c.forgejoctl_bin@,
                    config_file: opt_view(*forgejo_config_file),
                    token_file: t,
                }),
            },
        },
{
    let c = match config {
        Some(c) => c,
        None => {
            return None;
        },
    };
    let token_file = match &c.control_plane_token_file {
        Some(t) => t.clone(),
        None => match target_role {
            None => {
                return None;
            },
            Some(role) => match find_role(&c.roles, role.as_str()) {
                None => {
                    return None;
                },
                Some(i) => {
                    proof {
                        assert(role_views(c.roles@)[i as int].token_file
                            == c.roles@[i as int].token_file@);
                    }
                    c.roles[i].token_file.clone()
                },
            },
        },
    };
    Some(
        Identity {
            forgejoctl_bin: c.forgejoctl_bin.clone(),
            config_file: clone_opt(forgejo_config_file),
            token_file,
        },
    )
}

/// The colour of the label of a state, and what it says.
pub open spec fn state_label(s: OrchdRuntimeState) -> (Seq<char>, Seq<char>) {
    match s {
        OrchdRuntimeState::Queued => ("d4c5f9"@, "dispatch accepted and queued"@),
        OrchdRuntimeState::Running => ("1d76db"@, "dispatch currently running"@),
        OrchdRuntimeState::Blocked => (
            "d73a4a"@,
            "dispatch blocked on a dependency or operator decision"@,
        ),
        OrchdRuntimeState::Failed => ("b60205"@, "dispatch failed"@),
        OrchdRuntimeState::Completed => ("0e8a16"@, "dispatch completed successfully"@),
    }
}

/// The colour of the label of a state, what it says, and that an issue has only one of its kind.
pub fn orchd_runtime_label_meta(state: OrchdRuntimeState) -> (r: (&'static str, &'static str, bool))
    ensures
        (r.0@, r.1@) == state_label(state),
        r.2,
{
    match state {
        OrchdRuntimeState::Queued => ("d4c5f9", "dispatch accepted and queued", true),
        OrchdRuntimeState::Running => ("1d76db", "dispatch currently running", true),
        OrchdRuntimeState::Blocked => (
            "d73a4a",
            "dispatch blocked on a dependency or operator decision",
            true,
        ),
        OrchdRuntimeState::Failed => ("b60205", "dispatch failed", true),
        OrchdRuntimeState::Completed => ("0e8a16", "dispatch completed successfully", true),
    }
}

/// The reason, where it is not blank.
pub open spec fn stated_reason(reason: Option<Seq<char>>) -> Option<Seq<char>> {
    match reason {
        Some(t) if !blank(t) => Some(trim(t)),
        _ => None,
    }
}

/// The reason, where it is not blank.
pub fn reason_of(reason: &Option<String>) -> (r: Option<String>)
    ensures
        opt_view(r) == stated_reason(opt_view(*reason)),
{
    match reason {
        Some(t) => if str_blank(t.as_str()) {
            None
        } else {
            Some(str_trim(t.as_str()).to_owned())
        },
        None => None,
    }
}

/// What kind of label tells the reason of a state.
#[derive(Clone, Copy, PartialEq, Eq, Structural, Debug)]
pub enum ReasonLabel {
    Failure,
    Reason,
}

/// What kind of label tells the reason of a state.
pub open spec fn label_kind(state: OrchdRuntimeState) -> Option<ReasonLabel> {
    match state {
        OrchdRuntimeState::Failed => Some(ReasonLabel::Failure),
        OrchdRuntimeState::Completed => None,
        _ => Some(ReasonLabel::Reason),
    }
}

/// What kind of label tells the reason of a state: a completed dispatch has none.
pub fn reason_label_kind(state: OrchdRuntimeState) -> (r: Option<ReasonLabel>)
    ensures
        r == label_kind(state),
        r == (match state {
            OrchdRuntimeState::Failed => Some(ReasonLabel::Failure),
            OrchdRuntimeState::Completed => None,
            _ => Some(ReasonLabel::Reason),
        }),
{
    match state {
        OrchdRuntimeState::Failed => Some(ReasonLabel::Failure),
        OrchdRuntimeState::Completed => None,
        _ => Some(ReasonLabel::Reason),
    }
}

/// The colour of the label of a reason, and what it says.
pub open spec fn reason_label(kind: ReasonLabel) -> (Seq<char>, Seq<char>) {
    match kind {
        ReasonLabel::Failure => ("8a1c2d"@, "dispatch failed for this reason"@),
        ReasonLabel::Reason => ("fbca04"@, "orchd dispatch status reason code"@),
    }
}

/// The colour of a label that tells a reason, and what it says.
pub fn reason_label_meta(kind: ReasonLabel) -> (r: (&'static str, &'static str, bool))
    ensures
        (r.0@, r.1@) == reason_label(kind),
        !r.2,
{
    match kind {
        ReasonLabel::Failure => ("8a1c2d", "dispatch failed for this reason", false),
        ReasonLabel::Reason => ("fbca04", "orchd dispatch status reason code", false),
    }
}

/// The arguments with which the tool shows the state on an issue.
pub open spec fn state_args(
    i: Identity<Seq<char>>,
    issue: Seq<char>,
    state: OrchdRuntimeState,
    reason: Option<Seq<char>>,
) -> Seq<Seq<char>> {
    (match i.config_file {
        Some(c) => seq!["--config"@, c],
        None => Seq::empty(),
    }) + seq![
        "--token-file"@,
        i.token_file,
        "issue"@,
        "orchd-state"@,
        issue,
        "--to"@,
        state.word(),
    ] + (match stated_reason(reason) {
        Some(r) => seq!["--reason-code"@, r],
        None => Seq::empty(),
    })
}

/// The arguments with which the tool shows the state on an issue.
pub fn project_issue_runtime_state_as_role(
    identity: &CommentIdentity,
    issue_ref: &str,
    runtime_state: OrchdRuntimeState,
    runtime_reason_code: &Option<String>,
) -> (r: Vec<String>)
    ensures
        views(r@) == state_args(
            identity_view(*identity),
            issue_ref@,
            runtime_state,
            opt_view(*runtime_reason_code),
        ),
{
    let mut out: Vec<String> = Vec::new();
    proof {
        assert(views(out@) =~= Seq::<Seq<char>>::empty());
    }
    if let Some(c) = &identity.config_file {
        add_text(&mut out, "--config".to_owned());
        add_text(&mut out, c.clone());
    }
    add_text(&mut out, "--token-file".to_owned());
    add_text(&mut out, identity.token_file.clone());
    add_text(&mut out, "issue".to_owned());
    add_text(&mut out, "orchd-state".to_owned());
    add_text(&mut out, issue_ref.to_owned());
    add_text(&mut out, "--to".to_owned());
    add_text(&mut out, runtime_state.as_str().to_owned());
    if let Some(reason) = reason_of(runtime_reason_code) {
        add_text(&mut out, "--reason-code".to_owned());
        add_text(&mut out, reason);
    }
    proof {
        assert(views(out@) =~= state_args(
            identity_view(*identity),
            issue_ref@,
            runtime_state,
            opt_view(*runtime_reason_code),
        ));
    }
    out
}

/// The numbers come one after the other, each once.
pub open spec fn ascending_ids(v: Seq<u64>) -> bool {
    forall|i: int, j: int| 0 <= i < j < v.len() ==> v[i] < v[j]
}

/// Adds a number to a list in ascending order, unless it is there.
fn add_id(v: &mut Vec<u64>, id: u64)
    requires
        ascending_ids(old(v)@),
    ensures
        ascending_ids(final(v)@),
        final(v)@.to_set() == old(v)@.to_set().insert(id),
{
    let ghost before = v@;
    let mut i: usize = 0;
    while i < v.len() && v[i] < id
        invariant
            i <= v@.len(),
            v@ == before,
            forall|k: int| 0 <= k < i ==> #[trigger] before[k] < id,
        decreases v.len() - i,
    {
        i = i + 1;
    }
    if i < v.len() && v[i] == id {
        proof {
            assert(before.contains(id));
            assert(before.to_set().insert(id) =~= before.to_set());
        }
        return;
    }
    v.insert(i, id);
    proof {
        assert(v@ =~= before.insert(i as int, id));
        assert forall|x: u64| v@.to_set().contains(x) <==> before.to_set().insert(id).contains(x) by {
            if v@.contains(x) {
                let k = choose|k: int| 0 <= k < v@.len() && v@[k] == x;
                if k < i {
                    assert(before[k] == x);
                } else if k > i {
                    assert(before[k - 1] == x);
                }
            }
            if before.contains(x) {
                let k = choose|k: int| 0 <= k < before.len() && before[k] == x;
                if k < i {
                    assert(v@[k] == x);
                } else {
                    assert(v@[k + 1] == x);
                }
            }
            assert(v@[i as int] == id);
        }
        assert(v@.to_set() =~= before.to_set().insert(id));
    }
}

/// A label of an issue, and whether it is one of those that are replaced.
pub struct LabelSeen {
    pub id: u64,
    pub replaced: bool,
}

/// The labels that an issue keeps.
pub open spec fn kept(seen: Seq<LabelSeen>) -> Set<u64> {
    Set::new(
        |id: u64|
            exists|i: int|
                0 <= i < seen.len() && (#[trigger] seen[i]).id == id && !seen[i].replaced,
    )
}

/// The labels that an issue gets: those that it keeps and the new ones, in order and each once.
pub fn replacement_label_ids(seen: &Vec<LabelSeen>, target_id: u64, reason_label_id: Option<u64>) -> (r:
    Vec<u64>)
    ensures
        ascending_ids(r@),
        r@.to_set() == (match reason_label_id {
            Some(x) => kept(seen@).insert(target_id).insert(x),
            None => kept(seen@).insert(target_id),
        }),
{
    let mut out: Vec<u64> = Vec::new();
    let mut i: usize = 0;
    proof {
        assert(out@.to_set() =~= kept(seen@.take(0)));
    }
    while i < seen.len()
        invariant
            i <= seen@.len(),
            ascending_ids(out@),
            out@.to_set() == kept(seen@.take(i as int)),
        decreases seen.len() - i,
    {
        let ghost done = seen@.take(i as int);
        let ghost next = seen@.take(i + 1);
        proof {
            assert(next =~= done.push(seen@[i as int]));
            assert forall|x: u64| kept(next).contains(x) <==> (kept(done).contains(x) || (x
                == seen@[i as int].id && !seen@[i as int].replaced)) by {
                if kept(next).contains(x) {
                    let k = choose|k: int|
                        0 <= k < next.len() && (#[trigger] next[k]).id == x && !next[k].replaced;
                    if k < i {
                        assert(done[k].id == x);
                    }
                }
                if kept(done).contains(x) {
                    let k = choose|k: int|
                        0 <= k < done.len() && (#[trigger] done[k]).id == x && !done[k].replaced;
                    assert(next[k].id == x);
                }
                assert(next[i as int] == seen@[i as int]);
            }
        }
        if !seen[i].replaced {
            add_id(&mut out, seen[i].id);
            proof {
                assert(out@.to_set() =~= kept(next));
            }
        } else {
            proof {
                assert(kept(next) =~= kept(done));
            }
        }
        i = i + 1;
    }
    proof {
        assert(seen@.take(i as int) =~= seen@);
    }
    add_id(&mut out, target_id);
    if let Some(x) = reason_label_id {
        add_id(&mut out, x);
    }
    out
}

/// Labels in ascending order are told apart by nothing but which they are.
pub proof fn law_label_lists_are_unique(a: Seq<u64>, b: Seq<u64>)
    requires
        ascending_ids(a),
        ascending_ids(b),
        a.to_set() == b.to_set(),
    ensures
        a == b,
    decreases a.len(),
{
    if a.len() == 0 {
        if b.len() > 0 {
            assert(b.to_set().contains(b[0]));
            assert(a.contains(b[0]));
        }
        assert(a =~= b);
    } else {
        assert(a.to_set().contains(a.last()));
        assert(b.contains(a.last()));
        assert(b.to_set().contains(b.last()));
        assert(a.contains(b.last()));
        let i = choose|i: int| 0 <= i < a.len() && a[i] == b.last();
        let j = choose|j: int| 0 <= j < b.len() && b[j] == a.last();
        assert(a.last() == b.last());
        let a2 = a.drop_last();
        let b2 = b.drop_last();
        assert forall|x: u64| a2.to_set().contains(x) <==> b2.to_set().contains(x) by {
            if a2.contains(x) {
                let k = choose|k: int| 0 <= k < a2.len() && a2[k] == x;
                assert(a[k] == x);
                assert(a.to_set().contains(x));
                let m = choose|m: int| 0 <= m < b.len() && b[m] == x;
                assert(m < b.len() - 1);
                assert(b2[m] == x);
            }
            if b2.contains(x) {
                let k = choose|k: int| 0 <= k < b2.len() && b2[k] == x;
                assert(b[k] == x);
                assert(b.to_set().contains(x));
                let m = choose|m: int| 0 <= m < a.len() && a[m] == x;
                assert(m < a.len() - 1);
                assert(a2[m] == x);
            }
        }
        assert(a2.to_set() =~= b2.to_set());
        law_label_lists_are_unique(a2, b2);
        assert(a =~= a2.push(a.last()));
        assert(b =~= b2.push(b.last()));
    }
}

/// What is said where the tool could not show the state.
pub fn orchd_state_failure(issue_ref: &str, stderr: &str) -> (r: String)
    ensures
        r@ == "forgejoctl orchd-state failed for "@ + issue_ref@ + ": "@ + trim(stderr@),
{
    crate::text::cat4(
        "forgejoctl orchd-state failed for ",
        issue_ref,
        ": ",
        str_trim(stderr),
    )
}

/// Which answer the showing of a state waits for.
#[derive(Clone, Copy, PartialEq, Eq, Structural, Debug)]
pub enum ShowPhase {
    Labels,
    StateLabel,
    ReasonLabel,
    Replace,
    Over,
}

/// Where the showing of a state on an issue stands: what is shown, and the labels found so far.
pub struct Showing {
    pub phase: ShowPhase,
    pub state: OrchdRuntimeState,
    pub reason: Option<String>,
    pub seen: Vec<LabelSeen>,
    pub target_id: u64,
}

/// What is done next: the labels of the issue are read, the label of the state and that of the reason
/// are found or made, and the labels are written.
pub enum ShowAction {
    ReadLabels,
    EnsureStateLabel { color: &'static str, description: &'static str, exclusive: bool },
    EnsureReasonLabel {
        kind: ReasonLabel,
        reason: String,
        color: &'static str,
        description: &'static str,
        exclusive: bool,
    },
    Replace(Vec<u64>),
    Done,
}

/// The label of a reason that is wanted next to that of the state.
pub open spec fn wanted_reason(s: Showing) -> Option<(ReasonLabel, Seq<char>)> {
    match (s.state, stated_reason(opt_view(s.reason))) {
        (OrchdRuntimeState::Completed, _) => None,
        (_, None) => None,
        (OrchdRuntimeState::Failed, Some(r)) => Some((ReasonLabel::Failure, r)),
        (_, Some(r)) => Some((ReasonLabel::Reason, r)),
    }
}

/// The labels that the issue gets.
pub open spec fn shown_labels(s: Showing, target: u64, reason: Option<u64>) -> Set<u64> {
    match reason {
        Some(x) => kept(s.seen@).insert(target).insert(x),
        None => kept(s.seen@).insert(target),
    }
}

/// The labels that are written are those, in order.
pub open spec fn writes(a: ShowAction, ids: Set<u64>) -> bool {
    a matches ShowAction::Replace(v) && ascending_ids(v@) && v@.to_set() == ids
}

/// Takes up the showing of a state on an issue.
pub fn begin_showing(state: OrchdRuntimeState, reason: Option<String>) -> (r: (Showing, ShowAction))
    ensures
        r.0.phase == ShowPhase::Labels,
        r.0.state == state,
        r.0.reason == reason,
        r.1 is ReadLabels,
{
    (
        Showing { phase: ShowPhase::Labels, state, reason, seen: Vec::new(), target_id: 0 },
        ShowAction::ReadLabels,
    )
}

/// Goes on with the labels of the issue: the label of the state is next.
pub fn labels_read(s: Showing, seen: Vec<LabelSeen>) -> (r: (Showing, ShowAction))
    requires
        s.phase == ShowPhase::Labels,
    ensures
        r.0.phase == ShowPhase::StateLabel,
        r.0.state == s.state,
        r.0.reason == s.reason,
        r.0.seen == seen,
        r.1 matches ShowAction::EnsureStateLabel { color, description, exclusive } && (
            color@,
            description@,
        ) == state_label(s.state) && exclusive,
{
    let (color, description, exclusive) = orchd_runtime_label_meta(s.state);
    (
        Showing { phase: ShowPhase::StateLabel, state: s.state, reason: s.reason, seen, target_id: 0 },
        ShowAction::EnsureStateLabel { color, description, exclusive },
    )
}

/// Goes on with the label of the state: that of the reason is next, where there is one.
pub fn state_label_found(s: Showing, target_id: u64) -> (r: (Showing, ShowAction))
    requires
        s.phase == ShowPhase::StateLabel,
    ensures
        r.0.state == s.state,
        r.0.reason == s.reason,
        r.0.seen == s.seen,
        r.0.target_id == target_id,
        match wanted_reason(s) {
            Some((kind, reason)) => {
                &&& r.0.phase == ShowPhase::ReasonLabel
                &&& r.1 matches ShowAction::EnsureReasonLabel {
                    kind: k,
                    reason: t,
                    color,
                    description,
                    exclusive,
                } && k == kind && t@ == reason && (color@, description@) == reason_label(kind)
                    && !exclusive
            },
            None => r.0.phase == ShowPhase::Replace && writes(r.1, shown_labels(s, target_id, None)),
        },
{
    let wanted = match (reason_label_kind(s.state), reason_of(&s.reason)) {
        (Some(kind), Some(reason)) => Some((kind, reason)),
        _ => None,
    };
    match wanted {
        Some((kind, reason)) => {
            let (color, description, exclusive) = reason_label_meta(kind);
            (
                Showing {
                    phase: ShowPhase::ReasonLabel,
                    state: s.state,
                    reason: s.reason,
                    seen: s.seen,
                    target_id,
                },
                ShowAction::EnsureReasonLabel { kind, reason, color, description, exclusive },
            )
        },
        None => {
            let ids = replacement_label_ids(&s.seen, target_id, None);
            (
                Showing {
                    phase: ShowPhase::Replace,
                    state: s.state,
                    reason: s.reason,
                    seen: s.seen,
                    target_id,
                },
                ShowAction::Replace(ids),
            )
        },
    }
}

/// Goes on with the label of the reason, where one was found or made: the labels are written.
pub fn reason_label_found(s: Showing, reason_label_id: Option<u64>) -> (r: (Showing, ShowAction))
    requires
        s.phase == ShowPhase::ReasonLabel,
    ensures
        r.0.phase == ShowPhase::Replace,
        r.0.state == s.state,
        r.0.reason == s.reason,
        r.0.seen == s.seen,
        r.0.target_id == s.target_id,
        writes(r.1, shown_labels(s, s.target_id, reason_label_id)),
{
    let ids = replacement_label_ids(&s.seen, s.target_id, reason_label_id);
    (
        Showing {
            phase: ShowPhase::Replace,
            state: s.state,
            reason: s.reason,
            seen: s.seen,
            target_id: s.target_id,
        },
        ShowAction::Replace(ids),
    )
}

/// What follows the showing of a state through the interface of the forge.
pub enum Shown {
    Done,
    /// The tool shows the state in its stead.
    AsRole(CommentIdentity),
    Failed(String),
}

/// What follows the showing of a state through the interface of the forge: where that failed, the tool shows
/// it as the one who writes to the issue, if there is one.
pub fn project_issue_runtime_state(
    through_api: Result<(), String>,
    identity: Option<CommentIdentity>,
) -> (r: Shown)
    ensures
        r == (match (through_api, identity) {
            (Ok(_), _) => Shown::Done,
            (Err(_), Some(i)) => Shown::AsRole(i),
            (Err(e), None) => Shown::Failed(e),
        }),
{
    match through_api {
        Ok(_) => Shown::Done,
        Err(e) => match identity {
            Some(i) => Shown::AsRole(i),
            None => Shown::Failed(e),
        },
    }
}

/// An issue shows one state: of the labels that are replaced, none stays but the new one and that of
/// its reason, and every other label stays.
pub proof fn law_one_state_is_shown(s: Showing, target: u64, reason: Option<u64>, id: u64)
    ensures
        shown_labels(s, target, reason).contains(target),
        shown_labels(s, target, reason).contains(id) <==> (kept(s.seen@).contains(id) || id == target
            || reason == Some(id)),
{
}

/// An issue is written to with the token of the control plane, or else with that of the role, the first
/// that is configured under its name.
pub proof fn law_issues_are_written_to_by_the_control_plane(
    c: DispatchConfig,
    role: Seq<char>,
    k: int,
)
    requires
        0 <= k <= c.roles@.len(),
        k < c.roles@.len() ==> role_views(c.roles@)[k].name == role,
        forall|j: int| 0 <= j < k ==> (#[trigger] role_views(c.roles@)[j]).name != role,
    ensures
        c.control_plane_token_file matches Some(t) ==> writing_token(c, Some(role)) == Some(t@)
            && writing_token(c, None) == Some(t@),
        c.control_plane_token_file is None ==> writing_token(c, None) is None,
        c.control_plane_token_file is None && k == c.roles@.len() ==> writing_token(c, Some(role)) is None,
        c.control_plane_token_file is None && k < c.roles@.len() ==> writing_token(c, Some(role)) == Some(
            role_views(c.roles@)[k].token_file,
        ),
{
    let names = role_names(role_views(c.roles@));
    assert forall|j: int| 0 <= j < k implies #[trigger] names[j] != role by {
        assert(role_views(c.roles@)[j].name != role);
    }
    crate::text::lemma_first_at_is(names, role, k);
}

/// The tool is asked to show the state on the issue, with its token, its configuration where there is one,
/// and the reason where there is one that is not blank.
pub proof fn law_states_are_shown_with_their_reason(
    i: Identity<Seq<char>>,
    issue: Seq<char>,
    state: OrchdRuntimeState,
    reason: Seq<char>,
)
    ensures
        ({
            let plain = seq![
                "--token-file"@,
                i.token_file,
                "issue"@,
                "orchd-state"@,
                issue,
                "--to"@,
                state.word(),
            ];
            &&& i.config_file is None ==> state_args(i, issue, state, None) == plain
            &&& i.config_file matches Some(c) ==> state_args(i, issue, state, None) == seq![
                "--config"@,
                c,
            ] + plain
            &&& trim(reason).len() == 0 ==> state_args(i, issue, state, Some(reason)) == state_args(
                i,
                issue,
                state,
                None,
            )
            &&& trim(reason).len() > 0 ==> state_args(i, issue, state, Some(reason)) == state_args(
                i,
                issue,
                state,
                None,
            ) + seq!["--reason-code"@, trim(reason)]
        }),
{
    let plain = seq![
        "--token-file"@,
        i.token_file,
        "issue"@,
        "orchd-state"@,
        issue,
        "--to"@,
        state.word(),
    ];
    let none = Seq::<Seq<char>>::empty();
    let bare = state_args(i, issue, state, None);
    if let Some(c) = i.config_file {
        assert(bare =~= seq!["--config"@, c] + plain);
    } else {
        assert(bare =~= plain);
    }
    if trim(reason).len() > 0 {
        assert(state_args(i, issue, state, Some(reason)) =~= bare + seq!["--reason-code"@, trim(
            reason,
        )]);
    }
}

/// A completed dispatch shows no reason, a failed one why it failed, and any other the reason that there
/// is.
pub proof fn law_reasons_are_labelled_by_state(s: Showing)
    ensures
        s.state == OrchdRuntimeState::Completed ==> wanted_reason(s) is None,
        s.reason is None ==> wanted_reason(s) is None,
        s.reason matches Some(t) ==> (trim(t@).len() == 0 ==> wanted_reason(s) is None),
        s.reason matches Some(t) ==> (trim(t@).len() > 0 && s.state == OrchdRuntimeState::Failed
            ==> wanted_reason(s) == Some((ReasonLabel::Failure, trim(t@)))),
        s.reason matches Some(t) ==> (trim(t@).len() > 0 && s.state != OrchdRuntimeState::Failed
            && s.state != OrchdRuntimeState::Completed ==> wanted_reason(s) == Some(
            (ReasonLabel::Reason, trim(t@)),
        )),
{
}

/// An issue keeps exactly the labels that are not replaced, and gets the new ones.
pub proof fn law_other_labels_stay(s: Showing, target: u64, reason: u64, id: u64)
    ensures
        shown_labels(s, target, None).contains(id) <==> id == target || exists|i: int|
            0 <= i < s.seen@.len() && (#[trigger] s.seen@[i]).id == id && !s.seen@[i].replaced,
        shown_labels(s, target, Some(reason)).contains(id) <==> id == target || id == reason || exists|
            i: int,
        |
            0 <= i < s.seen@.len() && (#[trigger] s.seen@[i]).id == id && !s.seen@[i].replaced,
{
}

/// Each state has its own label.
pub proof fn law_states_have_their_labels()
    ensures
        state_label(OrchdRuntimeState::Queued) == ("d4c5f9"@, "dispatch accepted and queued"@),
        state_label(OrchdRuntimeState::Running) == ("1d76db"@, "dispatch currently running"@),
        state_label(OrchdRuntimeState::Blocked) == (
            "d73a4a"@,
            "dispatch blocked on a dependency or operator decision"@,
        ),
        state_label(OrchdRuntimeState::Failed) == ("b60205"@, "dispatch failed"@),
        state_label(OrchdRuntimeState::Completed) == ("0e8a16"@, "dispatch completed successfully"@),
        reason_label(ReasonLabel::Failure) == ("8a1c2d"@, "dispatch failed for this reason"@),
        reason_label(ReasonLabel::Reason) == ("fbca04"@, "orchd dispatch status reason code"@),
{
}

/// The labels that are written are those that the issue gets, in ascending order and each once.
pub proof fn law_labels_are_written_once(a: ShowAction, ids: Set<u64>, id: u64)
    requires
        writes(a, ids),
    ensures
        a matches ShowAction::Replace(v) && (v@.contains(id) <==> ids.contains(id)) && forall|
            i: int,
            j: int,
        |
            0 <= i < j < v@.len() ==> #[trigger] v@[i] < #[trigger] v@[j],
{
    if let ShowAction::Replace(v) = a {
        assert(v@.to_set().contains(id) <==> v@.contains(id));
    }
}

/// Only a completed dispatch has no label for a reason, and only a failed one that for a failure.
pub proof fn law_only_failures_have_failure_labels(state: OrchdRuntimeState)
    ensures
        label_kind(state) is None <==> state == OrchdRuntimeState::Completed,
        label_kind(state) == Some(ReasonLabel::Failure) <==> state == OrchdRuntimeState::Failed,
{
}

} // verus!
