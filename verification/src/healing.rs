//! Dispatches that look under way and are not: when one is stale, and what is done about it.

use crate::text::str_eq;
use crate::types::DispatchState;
use vstd::prelude::*;
use vstd::string::*;

verus! {

/// How long a dispatch may be starting, in seconds.
pub const STARTING_DISPATCH_STALE_AFTER_SEC: i64 = 120;

/// The reason with which a stale dispatch is ended.
pub const STALE_DISPATCH_REASON_CODE: &'static str = "stale_dispatch_autohealed";

/// What runs a dispatch.
#[derive(Clone, Copy, PartialEq, Eq, Structural, Debug)]
pub enum DispatchBackendKind {
    Systemd,
    Local,
}

impl DispatchBackendKind {
    /// The word that the store keeps for what runs a dispatch.
    pub open spec fn word(self) -> Seq<char> {
        match self {
            DispatchBackendKind::Systemd => "systemd"@,
            DispatchBackendKind::Local => "local"@,
        }
    }

    /// What the store keeps as the word.
    pub open spec fn of_word(word: Seq<char>) -> Option<DispatchBackendKind> {
        if word == "systemd"@ {
            Some(DispatchBackendKind::Systemd)
        } else if word == "local"@ {
            Some(DispatchBackendKind::Local)
        } else {
            None
        }
    }

    /// The word that the store keeps for what runs a dispatch.
    pub fn as_db_str(&self) -> (r: &'static str)
        ensures
            r@ == self.word(),
    {
        match self {
            DispatchBackendKind::Systemd => "systemd",
            DispatchBackendKind::Local => "local",
        }
    }

    /// What the store keeps as the word.
    pub fn parse_db(word: &str) -> (r: Option<DispatchBackendKind>)
        ensures
            r == DispatchBackendKind::of_word(word@),
    {
        if str_eq(word, "systemd") {
            Some(DispatchBackendKind::Systemd)
        } else if str_eq(word, "local") {
            Some(DispatchBackendKind::Local)
        } else {
            None
        }
    }
}

/// A dispatch that is not over.
pub struct InflightDispatch {
    pub id: i64,
    pub repo_full_name: String,
    pub issue_number: u64,
    pub status: DispatchState,
    pub started_at: String,
    pub backend_kind: Option<DispatchBackendKind>,
    pub backend_ref: Option<String>,
    pub lock_path: Option<String>,
}

/// A time that the calendar holds: seconds of the epoch and nanoseconds, which pass a second only in a
/// leap second.
pub open spec fn in_calendar(secs: i64, nanos: u32) -> bool {
    &&& -8_334_000_000_000 <= secs <= 8_210_000_000_000
    &&& nanos < 1_000_000_000 || (nanos < 2_000_000_000 && secs % 60 == 59)
}

/// The time that a text in the form of RFC 3339 gives, in seconds of the epoch and nanoseconds.
pub uninterp spec fn rfc3339_time(text: Seq<char>) -> Option<(i64, u32)>;

/// Reads a time with `chrono::DateTime::parse_from_rfc3339`. Claims that what is read depends on the
/// text alone, and that it lies within the calendar; the form of the text is not said.
#[verifier::external_body]
fn parse_rfc3339(text: &str) -> (r: Option<(i64, u32)>)
    ensures
        r == rfc3339_time(text@),
        r matches Some(t) ==> in_calendar(t.0, t.1),
{
    chrono::DateTime::parse_from_rfc3339(text).ok().map(|t| (t.timestamp(), t.timestamp_subsec_nanos()))
}

/// The whole seconds from one time to another, towards zero.
pub uninterp spec fn seconds_from(then_secs: i64, then_nanos: u32, secs: i64, nanos: u32) -> i64;

/// A number of nanoseconds in whole seconds, towards zero.
pub open spec fn whole_seconds(nanos: int) -> int {
    if nanos >= 0 {
        nanos / 1_000_000_000
    } else {
        -((-nanos) / 1_000_000_000)
    }
}

/// The whole seconds between two times, with `chrono::DateTime::signed_duration_since`. Claims that they
/// depend on the two times alone, and that outside leap seconds they are those of the difference.
#[verifier::external_body]
fn seconds_between(then_secs: i64, then_nanos: u32, secs: i64, nanos: u32) -> (r: i64)
    requires
        in_calendar(then_secs, then_nanos),
        in_calendar(secs, nanos),
    ensures
        r == seconds_from(then_secs, then_nanos, secs, nanos),
        then_nanos < 1_000_000_000 && nanos < 1_000_000_000 ==> r == whole_seconds(
            (secs - then_secs) * 1_000_000_000 + (nanos - then_nanos),
        ),
{
    let then = chrono::DateTime::from_timestamp(then_secs, then_nanos).unwrap_or_default();
    let now = chrono::DateTime::from_timestamp(secs, nanos).unwrap_or_default();
    now.signed_duration_since(then).num_seconds()
}

/// What is known of a dispatch without asking what runs it.
#[derive(Clone, Copy, PartialEq, Eq, Structural, Debug)]
pub enum Staleness {
    Stale,
    Live,
    /// What runs it has to be asked.
    Probe,
}

/// What is known of a dispatch that is starting, from its age: one whose beginning is unknown is stale,
/// a young one is live, and an old one that nothing runs is stale.
pub open spec fn starting_verdict(age: Option<i64>, has_backend: bool, has_ref: bool) -> Staleness {
    match age {
        None => Staleness::Stale,
        Some(a) => if a < STARTING_DISPATCH_STALE_AFTER_SEC {
            Staleness::Live
        } else if !has_backend || !has_ref {
            Staleness::Stale
        } else {
            Staleness::Probe
        },
    }
}

/// What is known of a dispatch that is starting, from its age.
pub fn starting_staleness(age: Option<i64>, has_backend: bool, has_ref: bool) -> (r: Staleness)
    ensures
        r == starting_verdict(age, has_backend, has_ref),
{
    match age {
        None => Staleness::Stale,
        Some(a) => if a < STARTING_DISPATCH_STALE_AFTER_SEC {
            Staleness::Live
        } else if !has_backend || !has_ref {
            Staleness::Stale
        } else {
            Staleness::Probe
        },
    }
}

/// The age of a dispatch at a time, where it is known when it began.
pub open spec fn age_at(started_at: Seq<char>, secs: i64, nanos: u32) -> Option<i64> {
    match rfc3339_time(started_at) {
        Some(t) => Some(seconds_from(t.0, t.1, secs, nanos)),
        None => None,
    }
}

/// What is known of a dispatch that is starting.
pub fn is_stale_starting_dispatch(dispatch: &InflightDispatch, now_secs: i64, now_nanos: u32) -> (r:
    Staleness)
    requires
        in_calendar(now_secs, now_nanos),
    ensures
        r == starting_verdict(
            age_at(dispatch.started_at@, now_secs, now_nanos),
            dispatch.backend_kind is Some,
            dispatch.backend_ref is Some,
        ),
{
    let age: Option<i64> = match parse_rfc3339(dispatch.started_at.as_str()) {
        Some((secs, nanos)) => Some(seconds_between(secs, nanos, now_secs, now_nanos)),
        None => None,
    };
    starting_staleness(age, dispatch.backend_kind.is_some(), dispatch.backend_ref.is_some())
}

/// What is known of a dispatch that runs: one that nothing runs is stale, and one of which nothing can
/// be asked is left alone.
pub open spec fn running_verdict(has_backend: bool, has_ref: bool) -> Staleness {
    if !has_backend {
        Staleness::Stale
    } else if !has_ref {
        Staleness::Live
    } else {
        Staleness::Probe
    }
}

/// What is known of a dispatch without asking what runs it.
pub fn should_heal_dispatch_stale(dispatch: &InflightDispatch, now_secs: i64, now_nanos: u32) -> (r:
    Staleness)
    requires
        in_calendar(now_secs, now_nanos),
    ensures
        r == (match dispatch.status {
            DispatchState::Running => running_verdict(
                dispatch.backend_kind is Some,
                dispatch.backend_ref is Some,
            ),
            DispatchState::Starting => starting_verdict(
                age_at(dispatch.started_at@, now_secs, now_nanos),
                dispatch.backend_kind is Some,
                dispatch.backend_ref is Some,
            ),
            _ => Staleness::Live,
        }),
{
    match dispatch.status {
        DispatchState::Running => if dispatch.backend_kind.is_none() {
            Staleness::Stale
        } else if dispatch.backend_ref.is_none() {
            Staleness::Live
        } else {
            Staleness::Probe
        },
        DispatchState::Starting => is_stale_starting_dispatch(dispatch, now_secs, now_nanos),
        _ => Staleness::Live,
    }
}

/// Whether a dispatch is healed once what runs it was asked: where it does not run. An unanswered
/// question leaves the dispatch alone.
pub fn heals_after_probe(alive: Option<bool>) -> (r: bool)
    ensures
        r == (alive == Some(false)),
{
    match alive {
        Some(a) => !a,
        None => false,
    }
}

/// Whether a unit of the service manager is alive, by the state that it shows.
pub fn unit_is_alive(shown: bool, active_state: &str) -> (r: bool)
    ensures
        r == (shown && (active_state@ == "active"@ || active_state@ == "activating"@
            || active_state@ == "reloading"@)),
{
    shown && (str_eq(active_state, "active") || str_eq(active_state, "activating") || str_eq(
        active_state,
        "reloading",
    ))
}

/// Where the look for a dispatch of an issue stands.
#[derive(Clone, Copy, PartialEq, Eq, Structural, Debug)]
pub enum HealPhase {
    Look,
    Probe,
    Mark,
    Over,
}

/// A look for a dispatch of an issue that is under way; stale ones are healed on the way.
#[derive(Clone, Copy, PartialEq, Eq, Structural, Debug)]
pub struct Healing {
    pub phase: HealPhase,
    pub dispatch_id: i64,
}

/// What is done next.
#[derive(Clone, Copy, PartialEq, Eq, Structural, Debug)]
pub enum HealAction {
    /// Look for the latest dispatch that is not over.
    Look,
    /// Ask what runs the dispatch.
    Probe(i64),
    /// End the dispatch as stale, remove its lock and set the issue right.
    Mark(i64),
    /// There is none, or this one.
    Found(Option<i64>),
    /// The look failed.
    GiveUp,
}

/// An answer from outside.
#[derive(Clone, Copy, Debug)]
pub enum HealReply {
    /// The latest dispatch, and what is known of it.
    Latest(Option<(i64, Staleness)>),
    /// Whether it runs, where that could be asked.
    Alive(Option<bool>),
    Done,
    Failed,
}

/// The answers that fit a phase.
pub open spec fn heal_fits(phase: HealPhase, reply: HealReply) -> bool {
    match phase {
        HealPhase::Look => reply is Latest || reply is Failed,
        HealPhase::Probe => reply is Alive,
        HealPhase::Mark => reply is Done || reply is Failed,
        HealPhase::Over => false,
    }
}

/// How the look goes on from an answer.
pub open spec fn heal_next(s: Healing, reply: HealReply) -> (Healing, HealAction) {
    let over = Healing { phase: HealPhase::Over, ..s };
    match s.phase {
        HealPhase::Look => match reply {
            HealReply::Latest(None) => (over, HealAction::Found(None)),
            HealReply::Latest(Some((id, Staleness::Live))) => (over, HealAction::Found(Some(id))),
            HealReply::Latest(Some((id, Staleness::Stale))) => (
                Healing { phase: HealPhase::Mark, dispatch_id: id },
                HealAction::Mark(id),
            ),
            HealReply::Latest(Some((id, Staleness::Probe))) => (
                Healing { phase: HealPhase::Probe, dispatch_id: id },
                HealAction::Probe(id),
            ),
            _ => (over, HealAction::GiveUp),
        },
        HealPhase::Probe => if reply == HealReply::Alive(Some(false)) {
            (Healing { phase: HealPhase::Mark, ..s }, HealAction::Mark(s.dispatch_id))
        } else {
            (over, HealAction::Found(Some(s.dispatch_id)))
        },
        HealPhase::Mark => if reply == HealReply::Failed {
            (over, HealAction::GiveUp)
        } else {
            (Healing { phase: HealPhase::Look, ..s }, HealAction::Look)
        },
        HealPhase::Over => (over, HealAction::GiveUp),
    }
}

/// Takes the look for a dispatch of an issue on from an answer.
pub fn find_issue_inflight_dispatch_with_healing(s: Healing, reply: HealReply) -> (r: (
    Healing,
    HealAction,
))
    requires
        heal_fits(s.phase, reply),
    ensures
        r == heal_next(s, reply),
{
    let over = Healing { phase: HealPhase::Over, dispatch_id: s.dispatch_id };
    match s.phase {
        HealPhase::Look => match reply {
            HealReply::Latest(latest) => match latest {
                None => (over, HealAction::Found(None)),
                Some((id, staleness)) => match staleness {
                    Staleness::Live => (over, HealAction::Found(Some(id))),
                    Staleness::Stale => (
                        Healing { phase: HealPhase::Mark, dispatch_id: id },
                        HealAction::Mark(id),
                    ),
                    Staleness::Probe => (
                        Healing { phase: HealPhase::Probe, dispatch_id: id },
                        HealAction::Probe(id),
                    ),
                },
            },
            _ => (over, HealAction::GiveUp),
        },
        HealPhase::Probe => match reply {
            HealReply::Alive(alive) => if heals_after_probe(alive) {
                (
                    Healing { phase: HealPhase::Mark, dispatch_id: s.dispatch_id },
                    HealAction::Mark(s.dispatch_id),
                )
            } else {
                (over, HealAction::Found(Some(s.dispatch_id)))
            },
            _ => (over, HealAction::GiveUp),
        },
        HealPhase::Mark => match reply {
            HealReply::Failed => (over, HealAction::GiveUp),
            _ => (
                Healing { phase: HealPhase::Look, dispatch_id: s.dispatch_id },
                HealAction::Look,
            ),
        },
        HealPhase::Over => (over, HealAction::GiveUp),
    }
}

/// Of dispatches with what is known of them, and what was answered about those that had to be asked
/// about, the ones that are healed.
pub open spec fn healed(ids: Seq<(i64, Staleness, Option<bool>)>) -> Seq<i64>
    decreases ids.len(),
{
    if ids.len() == 0 {
        Seq::empty()
    } else {
        let (id, s, alive) = ids.last();
        let before = healed(ids.drop_last());
        if s == Staleness::Stale || (s == Staleness::Probe && alive == Some(false)) {
            before.push(id)
        } else {
            before
        }
    }
}

/// The dispatches that a sweep heals, in their order.
pub fn heal_stale_inflight_dispatches(found: &Vec<(i64, Staleness, Option<bool>)>) -> (r: Vec<i64>)
    ensures
        r@ == healed(found@),
{
    let mut out: Vec<i64> = Vec::new();
    let mut i: usize = 0;
    proof {
        assert(found@.take(0) =~= Seq::<(i64, Staleness, Option<bool>)>::empty());
    }
    while i < found.len()
        invariant
            i <= found@.len(),
            out@ == healed(found@.take(i as int)),
        decreases found.len() - i,
    {
        proof {
            assert(found@.take(i + 1).last() == found@[i as int]);
            assert(found@.take(i + 1).drop_last() =~= found@.take(i as int));
        }
        let (id, staleness, alive) = found[i];
        let heals = match staleness {
            Staleness::Stale => true,
            Staleness::Probe => heals_after_probe(alive),
            Staleness::Live => false,
        };
        if heals {
            out.push(id);
        }
        i = i + 1;
    }
    proof {
        assert(found@.take(i as int) =~= found@);
    }
    out
}

/// A dispatch is ended as stale only where nothing runs it as far as is known: it was known to be stale,
/// or what runs it said that it does not run.
pub proof fn law_live_dispatches_are_not_healed(s: Healing, reply: HealReply, id: i64)
    requires
        heal_fits(s.phase, reply),
        heal_next(s, reply).1 == HealAction::Mark(id),
    ensures
        (s.phase == HealPhase::Look && reply == HealReply::Latest(Some((id, Staleness::Stale)))) || (
        s.phase == HealPhase::Probe && s.dispatch_id == id && reply == HealReply::Alive(
            Some(false),
        )),
{
}

/// A dispatch that began less than its time of grace ago is live.
pub proof fn law_young_dispatches_are_live(age: i64, has_backend: bool, has_ref: bool)
    requires
        age < STARTING_DISPATCH_STALE_AFTER_SEC,
    ensures
        starting_verdict(Some(age), has_backend, has_ref) == Staleness::Live,
{
}

/// A starting dispatch has two minutes: before that it is live; after it, it is stale where nothing is
/// known to run it, and asked about where something is. One whose beginning cannot be read is stale. A
/// running one is stale where nothing runs it.
pub proof fn law_staleness_goes_by_age_and_backend(age: i64, has_backend: bool, has_ref: bool)
    ensures
        starting_verdict(None, has_backend, has_ref) == Staleness::Stale,
        starting_verdict(Some(age), has_backend, has_ref) == Staleness::Live <==> age < 120,
        starting_verdict(Some(age), has_backend, has_ref) == Staleness::Probe <==> age >= 120
            && has_backend && has_ref,
        running_verdict(has_backend, has_ref) == Staleness::Stale <==> !has_backend,
        running_verdict(has_backend, has_ref) == Staleness::Probe <==> has_backend && has_ref,
{
}

/// A look ends with a dispatch that is live, as far as is known, or with none; a stale one is ended, and
/// the look goes on for another.
pub proof fn law_looks_end_with_what_is_live(
    s: Healing,
    id: i64,
    alive: Option<bool>,
)
    ensures
        s.phase == HealPhase::Look ==> {
            &&& heal_next(s, HealReply::Latest(None)).1 == HealAction::Found(None)
            &&& heal_next(s, HealReply::Latest(Some((id, Staleness::Live)))).1 == HealAction::Found(
                Some(id),
            )
            &&& heal_next(s, HealReply::Latest(Some((id, Staleness::Stale)))).1 == HealAction::Mark(id)
            &&& heal_next(s, HealReply::Latest(Some((id, Staleness::Probe)))).1 == HealAction::Probe(id)
            &&& heal_next(
                heal_next(s, HealReply::Latest(Some((id, Staleness::Probe)))).0,
                HealReply::Alive(alive),
            ).1 == (if alive == Some(false) {
                HealAction::Mark(id)
            } else {
                HealAction::Found(Some(id))
            })
            &&& heal_next(s, HealReply::Failed).1 is GiveUp
        },
        s.phase == HealPhase::Mark ==> heal_next(s, HealReply::Done).1 is Look && heal_next(
            s,
            HealReply::Done,
        ).0.phase == HealPhase::Look && heal_next(s, HealReply::Failed).1 is GiveUp,
{
}

/// A sweep heals a dispatch exactly where it is stale, or what runs it was asked and does not run it.
pub proof fn law_sweeps_heal_the_stale(ids: Seq<(i64, Staleness, Option<bool>)>, id: i64)
    ensures
        healed(ids).contains(id) <==> exists|k: int|
            0 <= k < ids.len() && (#[trigger] ids[k]).0 == id && (ids[k].1 == Staleness::Stale || (
            ids[k].1 == Staleness::Probe && ids[k].2 == Some(false))),
    decreases ids.len(),
{
    if ids.len() > 0 {
        let t = ids.drop_last();
        law_sweeps_heal_the_stale(t, id);
        let last = ids.last();
        let heals = last.1 == Staleness::Stale || (last.1 == Staleness::Probe && last.2 == Some(false));
        let before = healed(t);
        assert(healed(ids).contains(id) <==> before.contains(id) || (heals && last.0 == id)) by {
            if before.contains(id) {
                let i = choose|i: int| 0 <= i < before.len() && before[i] == id;
                assert(healed(ids)[i] == id);
            }
            if heals && last.0 == id {
                assert(healed(ids)[before.len() as int] == id);
            }
            if healed(ids).contains(id) {
                let i = choose|i: int| 0 <= i < healed(ids).len() && healed(ids)[i] == id;
                if i < before.len() {
                    assert(before[i] == id);
                }
            }
        }
        if exists|k: int|
            0 <= k < t.len() && (#[trigger] t[k]).0 == id && (t[k].1 == Staleness::Stale || (t[k].1
                == Staleness::Probe && t[k].2 == Some(false))) {
            let k = choose|k: int|
                0 <= k < t.len() && (#[trigger] t[k]).0 == id && (t[k].1 == Staleness::Stale || (t[k].1
                    == Staleness::Probe && t[k].2 == Some(false)));
            assert(ids[k] == t[k]);
        }
        if exists|k: int|
            0 <= k < ids.len() && (#[trigger] ids[k]).0 == id && (ids[k].1 == Staleness::Stale || (
            ids[k].1 == Staleness::Probe && ids[k].2 == Some(false))) {
            let k = choose|k: int|
                0 <= k < ids.len() && (#[trigger] ids[k]).0 == id && (ids[k].1 == Staleness::Stale || (
                ids[k].1 == Staleness::Probe && ids[k].2 == Some(false)));
            if k < t.len() {
                assert(t[k] == ids[k]);
            }
        }
        assert(ids[ids.len() - 1] == last);
    }
}

/// The seconds between two times are whole ones, cut towards zero.
pub proof fn law_seconds_are_cut_towards_zero(n: int, x: int)
    requires
        0 <= n,
        0 <= x < 1_000_000_000,
    ensures
        whole_seconds(n * 1_000_000_000 + x) == n,
        whole_seconds(-(n * 1_000_000_000 + x)) == -n,
{
}

/// The age of a dispatch is the time since it was started, where that can be read.
pub proof fn law_ages_are_since_the_start(started_at: Seq<char>, secs: i64, nanos: u32)
    ensures
        age_at(started_at, secs, nanos) is None <==> rfc3339_time(started_at) is None,
        rfc3339_time(started_at) matches Some(t) ==> age_at(started_at, secs, nanos) == Some(
            seconds_from(t.0, t.1, secs, nanos),
        ),
{
}

/// What is asked for is what is waited for, and nothing after the end.
pub proof fn law_looks_wait_for_what_they_ask(s: Healing, reply: HealReply)
    ensures
        ({
            let n = heal_next(s, reply);
            &&& n.1 is Look <==> n.0.phase == HealPhase::Look
            &&& n.1 is Probe <==> n.0.phase == HealPhase::Probe
            &&& n.1 is Mark <==> n.0.phase == HealPhase::Mark
            &&& n.1 is Found || n.1 is GiveUp <==> n.0.phase == HealPhase::Over
            &&& n.1 matches HealAction::Mark(id) ==> n.0.dispatch_id == id
            &&& n.1 matches HealAction::Probe(id) ==> n.0.dispatch_id == id
        }),
{
}

/// Backends are read back from their words, and no other word is one.
pub proof fn law_backends_have_their_words(word: Seq<char>)
    ensures
        DispatchBackendKind::of_word("systemd"@) == Some(DispatchBackendKind::Systemd),
        DispatchBackendKind::of_word("local"@) == Some(DispatchBackendKind::Local),
        DispatchBackendKind::of_word(word) is Some <==> word == "systemd"@ || word == "local"@,
        DispatchBackendKind::Systemd.word() == "systemd"@,
        DispatchBackendKind::Local.word() == "local"@,
{
    reveal_strlit("systemd");
    reveal_strlit("local");
    assert("systemd"@.len() == 7 && "local"@.len() == 5);
}

} // verus!
