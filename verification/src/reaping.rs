//! Setting an issue right after its dispatch went stale: the claims on it are released, and one that was
//! in progress is ready again.

use crate::projection::{ascending_ids, kept, replacement_label_ids, LabelSeen};
use crate::text::{cat3, cat4};
use crate::types::{issue_text, repo_parts, repo_text, IssueRef, RepoRef};
use vstd::prelude::*;
use vstd::string::*;

verus! {

/// The colour of the label of a workflow state.
pub const WORKFLOW_LABEL_COLOR: &'static str = "5319e7";

/// The description of the label of a workflow state.
pub const WORKFLOW_LABEL_DESCRIPTION: &'static str = "workflow state";

/// A label by which a role claims an issue.
#[verifier::ext_equal]
pub struct Claim<S> {
    pub id: u64,
    pub name: S,
}

/// A claim over the characters of its name.
pub open spec fn claim_view(c: Claim<String>) -> Claim<Seq<char>> {
    Claim { id: c.id, name: c.name@ }
}

/// Claims over the characters of their names.
pub open spec fn claim_views(v: Seq<Claim<String>>) -> Seq<Claim<Seq<char>>> {
    v.map_values(|c: Claim<String>| claim_view(c))
}

/// Which answer is waited for.
#[derive(Clone, Copy, PartialEq, Eq, Structural, Debug)]
pub enum ReapPhase {
    Load,
    Remove,
    Reload,
    Ready,
    Replace,
    Over,
}

/// An issue that is being set right. `claims` are those yet to be removed, the next one last; `seen` are
/// the labels that the issue then has, those of a workflow state marked as replaced.
#[verifier::ext_equal]
pub struct Reaping<S, C, L> {
    pub phase: ReapPhase,
    pub issue_ref: S,
    pub claims: C,
    pub seen: L,
}

/// What is done next.
pub enum ReapAction<S, I> {
    /// Read the issue.
    GetIssue,
    /// Remove the label from the issue.
    RemoveLabel(u64),
    /// Make sure of the label for issues that are ready.
    EnsureReadyLabel { color: S, description: S, exclusive: bool },
    /// Give the issue these labels.
    Replace(I),
    /// It is over, with the error where there is one.
    End(Option<S>),
}

/// What came of it. The claims of an issue come in their order.
pub enum ReapReply<S, C, L> {
    Issue { claims: C, seen: L, in_progress: Result<bool, S> },
    Label(u64),
    Done,
    Failed,
}

/// An issue that is being set right, at run time.
pub type Reap = Reaping<String, Vec<Claim<String>>, Vec<LabelSeen>>;

/// An issue that is being set right, in contracts.
pub type ReapSpec = Reaping<Seq<char>, Seq<Claim<Seq<char>>>, Seq<LabelSeen>>;

/// A step in contracts: labels that are given are a set.
pub type ReapStepSpec = (ReapSpec, ReapAction<Seq<char>, Set<u64>>);

/// A step at run time.
pub type ReapStep = (Reap, ReapAction<String, Vec<u64>>);

/// The view of an issue that is being set right.
pub open spec fn reap_view(s: Reap) -> ReapSpec {
    Reaping {
        phase: s.phase,
        issue_ref: s.issue_ref@,
        claims: claim_views(s.claims@),
        seen: s.seen@,
    }
}

/// The view of an action.
pub open spec fn action_view(a: ReapAction<String, Vec<u64>>) -> ReapAction<Seq<char>, Set<u64>> {
    match a {
        ReapAction::GetIssue => ReapAction::GetIssue,
        ReapAction::RemoveLabel(id) => ReapAction::RemoveLabel(id),
        ReapAction::EnsureReadyLabel { color, description, exclusive } => {
            ReapAction::EnsureReadyLabel { color: color@, description: description@, exclusive }
        },
        ReapAction::Replace(ids) => ReapAction::Replace(ids@.to_set()),
        ReapAction::End(e) => ReapAction::End(
            match e {
                Some(t) => Some(t@),
                None => None,
            },
        ),
    }
}

/// The view of a step.
pub open spec fn step_view(r: ReapStep) -> ReapStepSpec {
    (reap_view(r.0), action_view(r.1))
}

/// The view of an answer.
pub open spec fn reply_view(
    r: ReapReply<String, Vec<Claim<String>>, Vec<LabelSeen>>,
) -> ReapReply<Seq<char>, Seq<Claim<Seq<char>>>, Seq<LabelSeen>> {
    match r {
        ReapReply::Issue { claims, seen, in_progress } => ReapReply::Issue {
            claims: claim_views(claims@),
            seen: seen@,
            in_progress: match in_progress {
                Ok(b) => Ok(b),
                Err(e) => Err(e@),
            },
        },
        ReapReply::Label(id) => ReapReply::Label(id),
        ReapReply::Done => ReapReply::Done,
        ReapReply::Failed => ReapReply::Failed,
    }
}

/// The answer is one that the phase waits for.
pub open spec fn fits<S, C, L>(phase: ReapPhase, reply: ReapReply<S, C, L>) -> bool {
    match phase {
        ReapPhase::Load => reply is Issue || reply is Failed,
        ReapPhase::Remove => reply is Done || reply is Failed,
        ReapPhase::Reload => reply is Issue || reply is Failed,
        ReapPhase::Ready => reply is Label || reply is Failed,
        ReapPhase::Replace => reply is Done || reply is Failed,
        ReapPhase::Over => false,
    }
}

/// While claims are removed there is one that is being removed.
pub open spec fn consistent(s: ReapSpec) -> bool {
    s.phase == ReapPhase::Remove ==> s.claims.len() > 0
}

/// It ends.
pub open spec fn ended(s: ReapSpec, error: Option<Seq<char>>) -> ReapStepSpec {
    (Reaping { phase: ReapPhase::Over, ..s }, ReapAction::End(error))
}

/// The claims are removed one by one; after the last, the issue is read again.
pub open spec fn removing(s: ReapSpec, claims: Seq<Claim<Seq<char>>>) -> ReapStepSpec {
    if claims.len() > 0 {
        (
            Reaping { phase: ReapPhase::Remove, claims, ..s },
            ReapAction::RemoveLabel(claims.last().id),
        )
    } else {
        (Reaping { phase: ReapPhase::Reload, claims, ..s }, ReapAction::GetIssue)
    }
}

/// What is said where an issue could not be made ready.
pub open spec fn reset_failure(issue_ref: Seq<char>) -> Seq<char> {
    "resetting issue "@ + issue_ref + " workflow from in-progress to ready"@
}

/// What follows an answer.
pub open spec fn next(
    s: ReapSpec,
    reply: ReapReply<Seq<char>, Seq<Claim<Seq<char>>>, Seq<LabelSeen>>,
) -> ReapStepSpec {
    match (s.phase, reply) {
        (ReapPhase::Load, ReapReply::Issue { claims, .. }) => removing(s, claims.reverse()),
        (ReapPhase::Load, _) => ended(
            s,
            Some("loading issue "@ + s.issue_ref + " for stale dispatch reap"@),
        ),
        (ReapPhase::Remove, ReapReply::Done) => removing(s, s.claims.drop_last()),
        (ReapPhase::Remove, _) => ended(
            s,
            Some(
                "removing stale claim label "@ + s.claims.last().name + " from issue "@ + s.issue_ref,
            ),
        ),
        (ReapPhase::Reload, ReapReply::Issue { seen, in_progress, .. }) => match in_progress {
            Ok(true) => (
                Reaping { phase: ReapPhase::Ready, seen, ..s },
                ReapAction::EnsureReadyLabel {
                    color: WORKFLOW_LABEL_COLOR@,
                    description: WORKFLOW_LABEL_DESCRIPTION@,
                    exclusive: true,
                },
            ),
            Ok(false) => ended(s, None),
            Err(e) => ended(s, Some(e)),
        },
        (ReapPhase::Reload, _) => ended(
            s,
            Some("reloading issue "@ + s.issue_ref + " after claim removal"@),
        ),
        (ReapPhase::Ready, ReapReply::Label(id)) => (
            Reaping { phase: ReapPhase::Replace, ..s },
            ReapAction::Replace(kept(s.seen).insert(id)),
        ),
        (ReapPhase::Ready, _) => ended(s, Some(reset_failure(s.issue_ref))),
        (ReapPhase::Replace, ReapReply::Done) => ended(s, None),
        (ReapPhase::Replace, _) => ended(s, Some(reset_failure(s.issue_ref))),
        (ReapPhase::Over, _) => (s, ReapAction::End(None)),
    }
}

/// Ends at run time.
fn end(s: Reap, error: Option<String>) -> (r: ReapStep)
    ensures
        step_view(r) == ended(
            reap_view(s),
            match error {
                Some(t) => Some(t@),
                None => None,
            },
        ),
{
    (
        Reaping {
            phase: ReapPhase::Over,
            issue_ref: s.issue_ref,
            claims: s.claims,
            seen: s.seen,
        },
        ReapAction::End(error),
    )
}

/// Takes up the issue of a stale dispatch, where there is a client for the forge.
pub fn begin_reaping(client: bool, repo_full_name: &str, issue_number: u64) -> (r: ReapStep)
    ensures
        r.0.phase != ReapPhase::Over <==> client && repo_parts(repo_full_name@) is Some,
        consistent(reap_view(r.0)),
        match repo_parts(repo_full_name@) {
            Some(p) if client => step_view(r) == (
                Reaping {
                    phase: ReapPhase::Load,
                    issue_ref: issue_text(repo_text(p.0, p.1), issue_number),
                    claims: Seq::<Claim<Seq<char>>>::empty(),
                    seen: Seq::<LabelSeen>::empty(),
                },
                ReapAction::<Seq<char>, Set<u64>>::GetIssue,
            ),
            _ => action_view(r.1) == ReapAction::<Seq<char>, Set<u64>>::End(
                Some(
                    if !client {
                        "initializing Forgejo client for stale dispatch reap"@
                    } else {
                        "parsing stale dispatch repo"@
                    },
                ),
            ),
        },
{
    let bare = Reaping {
        phase: ReapPhase::Load,
        issue_ref: String::new(),
        claims: Vec::new(),
        seen: Vec::new(),
    };
    if !client {
        return end(bare, Some("initializing Forgejo client for stale dispatch reap".to_owned()));
    }
    match RepoRef::parse(repo_full_name) {
        Ok(repo) => {
            let issue = IssueRef { repo, number: issue_number };
            let s = Reaping {
                phase: ReapPhase::Load,
                issue_ref: issue.text(),
                claims: Vec::new(),
                seen: Vec::new(),
            };
            proof {
                assert(claim_views(s.claims@) =~= Seq::empty());
            }
            (s, ReapAction::GetIssue)
        },
        Err(_) => end(bare, Some("parsing stale dispatch repo".to_owned())),
    }
}

/// The claims in the reverse order.
fn reversed(claims: Vec<Claim<String>>) -> (r: Vec<Claim<String>>)
    ensures
        claim_views(r@) == claim_views(claims@).reverse(),
{
    let mut left = claims;
    let mut out: Vec<Claim<String>> = Vec::new();
    let ghost all = claims@;
    while left.len() > 0
        invariant
            left@.len() + out@.len() == all.len(),
            left@ == all.take(left@.len() as int),
            forall|i: int| 0 <= i < out@.len() ==> #[trigger] out@[i] == all[all.len() - 1 - i],
        decreases left@.len(),
    {
        let ghost n = left@.len();
        if let Some(c) = left.pop() {
            out.push(c);
            proof {
                assert(all.take(n as int).drop_last() =~= all.take(n - 1));
            }
        }
    }
    proof {
        assert(claim_views(out@) =~= claim_views(all).reverse());
    }
    out
}

/// Goes on with the claims that are left.
fn remove_next(s: Reap) -> (r: ReapStep)
    ensures
        step_view(r) == removing(reap_view(s), reap_view(s).claims),
        consistent(reap_view(r.0)),
{
    let n: usize = s.claims.len();
    if n > 0 {
        let id: u64 = s.claims[n - 1].id;
        proof {
            assert(reap_view(s).claims.last() == claim_view(s.claims@[n - 1]));
        }
        (
            Reaping {
                phase: ReapPhase::Remove,
                issue_ref: s.issue_ref,
                claims: s.claims,
                seen: s.seen,
            },
            ReapAction::RemoveLabel(id),
        )
    } else {
        (
            Reaping {
                phase: ReapPhase::Reload,
                issue_ref: s.issue_ref,
                claims: s.claims,
                seen: s.seen,
            },
            ReapAction::GetIssue,
        )
    }
}

/// Takes an answer and tells what is done next. The labels that an issue is given are in ascending order.
pub fn release_stale_issue_claim_and_reset_workflow(
    s: Reap,
    reply: ReapReply<String, Vec<Claim<String>>, Vec<LabelSeen>>,
) -> (r: ReapStep)
    requires
        fits(s.phase, reply),
        consistent(reap_view(s)),
    ensures
        step_view(r) == next(reap_view(s), reply_view(reply)),
        r.1 matches ReapAction::Replace(ids) ==> ascending_ids(ids@),
        consistent(reap_view(r.0)),
{
    match s.phase {
        ReapPhase::Load => match reply {
            ReapReply::Issue { claims, .. } => remove_next(
                Reaping {
                    phase: ReapPhase::Load,
                    issue_ref: s.issue_ref,
                    claims: reversed(claims),
                    seen: s.seen,
                },
            ),
            _ => {
                let said = cat3("loading issue ", s.issue_ref.as_str(), " for stale dispatch reap");
                end(s, Some(said))
            },
        },
        ReapPhase::Remove => match reply {
            ReapReply::Done => {
                let mut claims = s.claims;
                let ghost before = claims@;
                let _ = claims.pop();
                proof {
                    assert(claim_views(claims@) =~= claim_views(before).drop_last());
                }
                remove_next(
                    Reaping {
                        phase: ReapPhase::Remove,
                        issue_ref: s.issue_ref,
                        claims,
                        seen: s.seen,
                    },
                )
            },
            _ => {
                let n: usize = s.claims.len();
                proof {
                    assert(reap_view(s).claims.last() == claim_view(s.claims@[n - 1]));
                }
                let said = cat4(
                    "removing stale claim label ",
                    s.claims[n - 1].name.as_str(),
                    " from issue ",
                    s.issue_ref.as_str(),
                );
                end(s, Some(said))
            },
        },
        ReapPhase::Reload => match reply {
            ReapReply::Issue { seen, in_progress, .. } => match in_progress {
                Ok(busy) => if busy {
                    (
                        Reaping {
                            phase: ReapPhase::Ready,
                            issue_ref: s.issue_ref,
                            claims: s.claims,
                            seen,
                        },
                        ReapAction::EnsureReadyLabel {
                            color: WORKFLOW_LABEL_COLOR.to_owned(),
                            description: WORKFLOW_LABEL_DESCRIPTION.to_owned(),
                            exclusive: true,
                        },
                    )
                } else {
                    end(s, None)
                },
                Err(e) => end(s, Some(e)),
            },
            _ => {
                let said = cat3("reloading issue ", s.issue_ref.as_str(), " after claim removal");
                end(s, Some(said))
            },
        },
        ReapPhase::Ready => match reply {
            ReapReply::Label(id) => {
                let ids = replacement_label_ids(&s.seen, id, None);
                (
                    Reaping {
                        phase: ReapPhase::Replace,
                        issue_ref: s.issue_ref,
                        claims: s.claims,
                        seen: s.seen,
                    },
                    ReapAction::Replace(ids),
                )
            },
            _ => {
                let said = reset_said(s.issue_ref.as_str());
                end(s, Some(said))
            },
        },
        _ => match reply {
            ReapReply::Done => end(s, None),
            _ => {
                let said = reset_said(s.issue_ref.as_str());
                end(s, Some(said))
            },
        },
    }
}

/// What is said where an issue could not be made ready.
fn reset_said(issue_ref: &str) -> (r: String)
    ensures
        r@ == reset_failure(issue_ref@),
{
    cat3("resetting issue ", issue_ref, " workflow from in-progress to ready")
}

/// How far an issue is from being set right.
pub open spec fn distance(s: ReapSpec) -> nat {
    match s.phase {
        ReapPhase::Load => 5,
        ReapPhase::Remove => 4,
        ReapPhase::Reload => 3,
        ReapPhase::Ready => 2,
        ReapPhase::Replace => 1,
        ReapPhase::Over => 0,
    }
}

/// Setting an issue right ends: each answer brings it on, or leaves fewer claims to remove.
pub proof fn law_reaping_ends(
    s: ReapSpec,
    reply: ReapReply<Seq<char>, Seq<Claim<Seq<char>>>, Seq<LabelSeen>>,
)
    requires
        fits(s.phase, reply),
        consistent(s),
    ensures
        consistent(next(s, reply).0),
        distance(next(s, reply).0) < distance(s) || (next(s, reply).0.phase == ReapPhase::Remove
            && s.phase == ReapPhase::Remove && next(s, reply).0.claims.len() < s.claims.len()),
{
}

/// Only an issue that was still in progress after its claims were removed is given new labels; it then
/// has the label for ready, no other label of a workflow state, and every label besides.
pub proof fn law_ready_issues_have_one_workflow_label(
    s: ReapSpec,
    reply: ReapReply<Seq<char>, Seq<Claim<Seq<char>>>, Seq<LabelSeen>>,
    ready: u64,
    label: u64,
)
    ensures
        next(s, reply).0.phase == ReapPhase::Ready ==> s.phase == ReapPhase::Reload && (
        reply matches ReapReply::Issue { seen, in_progress, .. } && in_progress == Ok::<
            bool,
            Seq<char>,
        >(true) && next(s, reply).0.seen == seen),
        s.phase == ReapPhase::Ready && reply == ReapReply::<
            Seq<char>,
            Seq<Claim<Seq<char>>>,
            Seq<LabelSeen>,
        >::Label(ready) ==> (next(s, reply).1 matches ReapAction::Replace(ids) && ids.contains(
            ready,
        ) && (ids.contains(label) <==> label == ready || kept(s.seen).contains(label))),
{
}

/// An issue of a stale dispatch loses its claims one after the other, the first of them first, and is then
/// read anew: where it is still in progress it is made ready, and otherwise nothing more is done. Whatever
/// fails ends it with an error.
pub proof fn law_claims_are_released_in_order(
    s: ReapSpec,
    claims: Seq<Claim<Seq<char>>>,
    seen: Seq<LabelSeen>,
    progress: Result<bool, Seq<char>>,
    id: u64,
)
    requires
        consistent(s),
    ensures
        s.phase == ReapPhase::Load ==> {
            let n = next(s, ReapReply::Issue { claims, seen, in_progress: progress });
            &&& claims.len() > 0 ==> n.1 == ReapAction::<Seq<char>, Set<u64>>::RemoveLabel(claims[0].id)
                && n.0.claims.len() == claims.len()
            &&& claims.len() == 0 ==> n.1 is GetIssue && n.0.phase == ReapPhase::Reload
            &&& claims.len() > 1 ==> next(n.0, ReapReply::Done).1 == ReapAction::<
                Seq<char>,
                Set<u64>,
            >::RemoveLabel(claims[1].id)
        },
        s.phase == ReapPhase::Remove ==> {
            let n = next(s, ReapReply::Done);
            &&& n.0.claims == s.claims.drop_last()
            &&& s.claims.len() == 1 ==> n.1 is GetIssue && n.0.phase == ReapPhase::Reload
            &&& s.claims.len() > 1 ==> n.1 == ReapAction::<Seq<char>, Set<u64>>::RemoveLabel(
                s.claims[s.claims.len() - 2].id,
            )
        },
        s.phase == ReapPhase::Reload ==> {
            let n = next(s, ReapReply::Issue { claims, seen, in_progress: progress });
            match progress {
                Ok(true) => n.1 is EnsureReadyLabel && next(n.0, ReapReply::Label(id)).1
                    == ReapAction::<Seq<char>, Set<u64>>::Replace(kept(seen).insert(id)) && next(
                    next(n.0, ReapReply::Label(id)).0,
                    ReapReply::Done,
                ).1 == ReapAction::<Seq<char>, Set<u64>>::End(None),
                Ok(false) => n.1 == ReapAction::<Seq<char>, Set<u64>>::End(None),
                Err(e) => n.1 == ReapAction::<Seq<char>, Set<u64>>::End(Some(e)),
            }
        },
        s.phase != ReapPhase::Over ==> (next(s, ReapReply::Failed).1 matches ReapAction::End(Some(_))),
{
    assert(claims.len() > 0 ==> claims.reverse().last() == claims[0]);
    assert(claims.len() > 1 ==> claims.reverse().drop_last().last() == claims[1]);
}

/// What is asked for is what is waited for, and nothing after the end.
pub proof fn law_reaping_waits_for_what_it_asks(
    s: ReapSpec,
    reply: ReapReply<Seq<char>, Seq<Claim<Seq<char>>>, Seq<LabelSeen>>,
)
    requires
        s.phase != ReapPhase::Over,
    ensures
        ({
            let n = next(s, reply);
            &&& n.1 is RemoveLabel <==> n.0.phase == ReapPhase::Remove
            &&& n.1 is GetIssue <==> n.0.phase == ReapPhase::Reload
            &&& n.1 is EnsureReadyLabel <==> n.0.phase == ReapPhase::Ready
            &&& n.1 is Replace <==> n.0.phase == ReapPhase::Replace
            &&& n.1 is End <==> n.0.phase == ReapPhase::Over
            &&& n.0.issue_ref == s.issue_ref
        }),
{
}

/// The label of an issue that is ready is one that excludes the others of its kind.
pub proof fn law_ready_labels_exclude_the_others(
    s: ReapSpec,
    claims: Seq<Claim<Seq<char>>>,
    seen: Seq<LabelSeen>,
)
    requires
        s.phase == ReapPhase::Reload,
    ensures
        ({
            let n = next(s, ReapReply::Issue { claims, seen, in_progress: Ok(true) });
            &&& n.1 matches ReapAction::EnsureReadyLabel { color, description, exclusive } && exclusive
            &&& n.0.seen == seen
        }),
{
}

} // verus!
