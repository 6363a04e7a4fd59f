//! What the forge reported and what became of it: events, each recorded once, the decisions on them,
//! how far a role has read an issue, and the repositories that were seen.

use crate::ingress::{event_view, Event, EventRecord};
use crate::text::{clone_opt, opt_view, str_eq};
use crate::webhook::{decision_view, Decision, DecisionRecord};
use vstd::prelude::*;
use vstd::string::*;

verus! {

/// What is said of a number that the store cannot hold.
pub const NUMBER_TOO_LARGE: &'static str = "out of range integral type conversion attempted";

/// The issue's number can be stored.
pub open spec fn storable(issue_number: Option<u64>) -> bool {
    match issue_number {
        Some(n) => n <= i64::MAX,
        None => true,
    }
}

/// Tells whether the issue's number can be stored.
fn can_store(issue_number: Option<u64>) -> (r: bool)
    ensures
        r == storable(issue_number),
{
    match issue_number {
        Some(n) => n <= 9_223_372_036_854_775_807,
        None => true,
    }
}

/// An event as the store keeps it.
#[verifier::ext_equal]
pub struct EventRow<S> {
    pub id: i64,
    pub event: Event<S>,
    pub received_at: S,
}

/// An event as the store keeps it, over the characters of its texts.
pub open spec fn event_row_view(r: EventRow<String>) -> EventRow<Seq<char>> {
    EventRow { id: r.id, event: event_view(r.event), received_at: r.received_at@ }
}

/// The events, oldest first. `last_id` is the highest number that an event ever had.
pub struct Events {
    pub rows: Vec<EventRow<String>>,
    pub last_id: i64,
}

/// The events over the characters of their texts.
#[verifier::ext_equal]
pub struct EventTable {
    pub rows: Seq<EventRow<Seq<char>>>,
    pub last_id: i64,
}

/// The two are reports of one delivery.
pub open spec fn same_delivery(a: Event<Seq<char>>, b: Event<Seq<char>>) -> bool {
    a.delivery_id == b.delivery_id && a.event_type == b.event_type
}

/// The delivery of the event was recorded.
pub open spec fn delivered(rows: Seq<EventRow<Seq<char>>>, e: Event<Seq<char>>) -> bool {
    exists|i: int| 0 <= i < rows.len() && same_delivery((#[trigger] rows[i]).event, e)
}

impl EventTable {
    /// The events are in the order of their numbers, and no delivery is there twice.
    pub open spec fn wf(self) -> bool {
        &&& self.last_id >= 0
        &&& forall|i: int|
            0 <= i < self.rows.len() ==> 0 < (#[trigger] self.rows[i]).id <= self.last_id
        &&& forall|i: int, j: int|
            0 <= i < j < self.rows.len() ==> (#[trigger] self.rows[i]).id < (
            #[trigger] self.rows[j]).id
        &&& forall|i: int, j: int|
            0 <= i < j < self.rows.len() ==> !same_delivery(
                (#[trigger] self.rows[i]).event,
                (#[trigger] self.rows[j]).event,
            )
    }
}

impl View for Events {
    type V = EventTable;

    open spec fn view(&self) -> EventTable {
        EventTable {
            rows: self.rows@.map_values(|r: EventRow<String>| event_row_view(r)),
            last_id: self.last_id,
        }
    }
}

/// The events after one was reported at a time.
pub open spec fn after_event(t: EventTable, e: Event<Seq<char>>, now: Seq<char>) -> EventTable {
    if delivered(t.rows, e) {
        t
    } else {
        let id = (t.last_id + 1) as i64;
        EventTable { rows: t.rows.push(EventRow { id, event: e, received_at: now }), last_id: id }
    }
}

impl Events {
    /// No events.
    pub fn new() -> (r: Events)
        ensures
            r@ == (EventTable { rows: Seq::empty(), last_id: 0 }),
            r@.wf(),
    {
        let r = Events { rows: Vec::new(), last_id: 0 };
        proof {
            assert(r@.rows =~= Seq::empty());
        }
        r
    }

    /// Tells whether the delivery of the event was recorded.
    fn has_delivery(&self, event: &EventRecord) -> (r: bool)
        ensures
            r == delivered(self@.rows, event_view(*event)),
    {
        let mut i: usize = 0;
        while i < self.rows.len()
            invariant
                i <= self.rows@.len(),
                forall|j: int|
                    0 <= j < i ==> !same_delivery(
                        (#[trigger] self@.rows[j]).event,
                        event_view(*event),
                    ),
            decreases self.rows@.len() - i,
        {
            let row = &self.rows[i];
            assert(self@.rows[i as int] == event_row_view(*row));
            if str_eq(row.event.delivery_id.as_str(), event.delivery_id.as_str()) && str_eq(
                row.event.event_type.as_str(),
                event.event_type.as_str(),
            ) {
                return true;
            }
            i = i + 1;
        }
        false
    }

    /// Records an event, where its delivery was not recorded before, and gives its number.
    pub fn insert_event(&mut self, event: EventRecord, now: &str) -> (r: Result<Option<i64>, String>)
        requires
            old(self).last_id < i64::MAX,
        ensures
            !storable(event.issue_number) ==> {
                &&& final(self)@ == old(self)@
                &&& r matches Err(e)
                &&& e@ == NUMBER_TOO_LARGE@
            },
            storable(event.issue_number) ==> {
                &&& final(self)@ == after_event(old(self)@, event_view(event), now@)
                &&& r == Ok::<Option<i64>, String>(
                    if delivered(old(self)@.rows, event_view(event)) {
                        None
                    } else {
                        Some(final(self).last_id)
                    },
                )
            },
            old(self)@.wf() ==> final(self)@.wf(),
    {
        if !can_store(event.issue_number) {
            return Err(NUMBER_TOO_LARGE.to_owned());
        }
        if self.has_delivery(&event) {
            return Ok(None);
        }
        let id: i64 = self.last_id + 1;
        let row = EventRow { id, event, received_at: now.to_owned() };
        let ghost shown = event_row_view(row);
        self.rows.push(row);
        self.last_id = id;
        proof {
            assert(self@.rows =~= old(self)@.rows.push(shown));
        }
        Ok(Some(id))
    }

    /// The delivery that was recorded last.
    pub fn last_delivery_id(&self) -> (r: Option<String>)
        ensures
            opt_view(r) == (if self@.rows.len() > 0 {
                Some(self@.rows.last().event.delivery_id)
            } else {
                None
            }),
    {
        let n: usize = self.rows.len();
        if n == 0 {
            None
        } else {
            assert(self@.rows.last() == event_row_view(self.rows@[n - 1]));
            Some(self.rows[n - 1].event.delivery_id.clone())
        }
    }
}

/// A delivery is recorded once: after an event was reported, reporting one of the same delivery changes
/// nothing, at any time.
pub proof fn law_deliveries_are_recorded_once(
    t: EventTable,
    first: Event<Seq<char>>,
    again: Event<Seq<char>>,
    now: Seq<char>,
    later: Seq<char>,
)
    requires
        same_delivery(first, again),
    ensures
        delivered(after_event(t, first, now).rows, again),
        after_event(after_event(t, first, now), again, later) == after_event(t, first, now),
{
    let after = after_event(t, first, now);
    if delivered(t.rows, first) {
        let i = choose|i: int| 0 <= i < t.rows.len() && same_delivery((#[trigger] t.rows[i]).event, first);
        assert(same_delivery(after.rows[i].event, again));
    } else {
        assert(same_delivery(after.rows[t.rows.len() as int].event, again));
    }
}

/// A decision as the store keeps it.
#[verifier::ext_equal]
pub struct DecisionRow<S> {
    pub id: i64,
    pub event_id: i64,
    pub repo_full_name: S,
    pub issue_number: Option<u64>,
    pub actor_login: Option<S>,
    pub directive: Option<S>,
    pub target_role: Option<S>,
    pub decision: S,
    pub reason_code: S,
    pub would_dispatch: bool,
    pub comment_posted: bool,
    pub comment_error: Option<S>,
    pub created_at: S,
}

/// A decision as the store keeps it, over the characters of its texts.
pub open spec fn decision_row_view(r: DecisionRow<String>) -> DecisionRow<Seq<char>> {
    DecisionRow {
        id: r.id,
        event_id: r.event_id,
        repo_full_name: r.repo_full_name@,
        issue_number: r.issue_number,
        actor_login: opt_view(r.actor_login),
        directive: opt_view(r.directive),
        target_role: opt_view(r.target_role),
        decision: r.decision@,
        reason_code: r.reason_code@,
        would_dispatch: r.would_dispatch,
        comment_posted: r.comment_posted,
        comment_error: opt_view(r.comment_error),
        created_at: r.created_at@,
    }
}

/// The decisions, oldest first. `last_id` is the highest number that a decision ever had.
pub struct Decisions {
    pub rows: Vec<DecisionRow<String>>,
    pub last_id: i64,
}

/// The decisions over the characters of their texts.
#[verifier::ext_equal]
pub struct DecisionTable {
    pub rows: Seq<DecisionRow<Seq<char>>>,
    pub last_id: i64,
}

impl DecisionTable {
    /// The decisions are in the order of their numbers.
    pub open spec fn wf(self) -> bool {
        &&& self.last_id >= 0
        &&& forall|i: int|
            0 <= i < self.rows.len() ==> 0 < (#[trigger] self.rows[i]).id <= self.last_id
        &&& forall|i: int, j: int|
            0 <= i < j < self.rows.len() ==> (#[trigger] self.rows[i]).id < (
            #[trigger] self.rows[j]).id
    }
}

impl View for Decisions {
    type V = DecisionTable;

    open spec fn view(&self) -> DecisionTable {
        DecisionTable {
            rows: self.rows@.map_values(|r: DecisionRow<String>| decision_row_view(r)),
            last_id: self.last_id,
        }
    }
}

/// The decision on an event, as it is entered: not yet shown on the issue.
pub open spec fn new_decision(
    id: i64,
    event_id: i64,
    e: Event<Seq<char>>,
    d: Decision<Seq<char>>,
    now: Seq<char>,
) -> DecisionRow<Seq<char>> {
    DecisionRow {
        id,
        event_id,
        repo_full_name: e.repo_full_name,
        issue_number: e.issue_number,
        actor_login: e.actor_login,
        directive: d.directive,
        target_role: d.target_role,
        decision: d.decision,
        reason_code: d.reason_code,
        would_dispatch: d.would_dispatch,
        comment_posted: false,
        comment_error: None,
        created_at: now,
    }
}

/// A decision after one of a number was shown on its issue, or not.
pub open spec fn after_shown(
    r: DecisionRow<Seq<char>>,
    id: i64,
    posted: bool,
    error: Option<Seq<char>>,
) -> DecisionRow<Seq<char>> {
    if r.id == id {
        DecisionRow { comment_posted: posted, comment_error: error, ..r }
    } else {
        r
    }
}

/// The decision waits: it was accepted for a dispatch and is not yet shown.
pub open spec fn waiting(r: DecisionRow<Seq<char>>) -> bool {
    r.decision == "accepted"@ && r.would_dispatch && !r.comment_posted
}

/// How many of the decisions wait.
pub open spec fn depth(rows: Seq<DecisionRow<Seq<char>>>) -> nat {
    rows.filter(|r: DecisionRow<Seq<char>>| waiting(r)).len()
}

impl Decisions {
    /// No decisions.
    pub fn new() -> (r: Decisions)
        ensures
            r@ == (DecisionTable { rows: Seq::empty(), last_id: 0 }),
            r@.wf(),
    {
        let r = Decisions { rows: Vec::new(), last_id: 0 };
        proof {
            assert(r@.rows =~= Seq::empty());
        }
        r
    }

    /// Records the decision on an event, and gives its number.
    pub fn insert_decision(
        &mut self,
        event_id: i64,
        event: &EventRecord,
        decision: &DecisionRecord,
        now: &str,
    ) -> (r: Result<i64, String>)
        requires
            old(self).last_id < i64::MAX,
        ensures
            !storable(event.issue_number) ==> {
                &&& final(self)@ == old(self)@
                &&& r matches Err(e)
                &&& e@ == NUMBER_TOO_LARGE@
            },
            storable(event.issue_number) ==> {
                let id = (old(self).last_id + 1) as i64;
                &&& final(self)@ == (DecisionTable {
                    rows: old(self)@.rows.push(
                        new_decision(
                            id,
                            event_id,
                            event_view(*event),
                            decision_view(*decision),
                            now@,
                        ),
                    ),
                    last_id: id,
                })
                &&& r == Ok::<i64, String>(id)
            },
            old(self)@.wf() ==> final(self)@.wf(),
    {
        if !can_store(event.issue_number) {
            return Err(NUMBER_TOO_LARGE.to_owned());
        }
        let id: i64 = self.last_id + 1;
        let row = DecisionRow {
            id,
            event_id,
            repo_full_name: event.repo_full_name.clone(),
            issue_number: event.issue_number,
            actor_login: clone_opt(&event.actor_login),
            directive: clone_opt(&decision.directive),
            target_role: clone_opt(&decision.target_role),
            decision: decision.decision.clone(),
            reason_code: decision.reason_code.clone(),
            would_dispatch: decision.would_dispatch,
            comment_posted: false,
            comment_error: None,
            created_at: now.to_owned(),
        };
        let ghost shown = decision_row_view(row);
        self.rows.push(row);
        self.last_id = id;
        proof {
            assert(self@.rows =~= old(self)@.rows.push(shown));
        }
        Ok(id)
    }

    /// Records whether the decision of the number was shown on its issue, and the error where there
    /// was one.
    pub fn update_decision_comment_status(
        &mut self,
        decision_id: i64,
        comment_posted: bool,
        comment_error: Option<String>,
    )
        ensures
            final(self).last_id == old(self).last_id,
            final(self)@.rows == old(self)@.rows.map_values(
                |r: DecisionRow<Seq<char>>|
                    after_shown(r, decision_id, comment_posted, opt_view(comment_error)),
            ),
            old(self)@.wf() ==> final(self)@.wf(),
    {
        let ghost error = opt_view(comment_error);
        let n: usize = self.rows.len();
        let mut i: usize = 0;
        while i < n
            invariant
                i <= n,
                n == self.rows@.len(),
                self.rows@.len() == old(self).rows@.len(),
                self.last_id == old(self).last_id,
                error == opt_view(comment_error),
                forall|j: int|
                    0 <= j < i ==> #[trigger] self@.rows[j] == after_shown(
                        old(self)@.rows[j],
                        decision_id,
                        comment_posted,
                        error,
                    ),
                forall|j: int| i <= j < n ==> #[trigger] self@.rows[j] == old(self)@.rows[j],
            decreases n - i,
        {
            let ghost before = self@.rows;
            assert(before[i as int] == decision_row_view(self.rows@[i as int]));
            if self.rows[i].id == decision_id {
                self.rows[i].comment_posted = comment_posted;
                self.rows[i].comment_error = clone_opt(&comment_error);
            }
            proof {
                assert(self@.rows =~= before.update(
                    i as int,
                    after_shown(before[i as int], decision_id, comment_posted, error),
                ));
            }
            i = i + 1;
        }
        proof {
            assert(self@.rows =~= old(self)@.rows.map_values(
                |r: DecisionRow<Seq<char>>| after_shown(r, decision_id, comment_posted, error),
            ));
        }
    }

    /// How many decisions wait.
    pub fn queue_depth(&self) -> (r: usize)
        ensures
            r == depth(self@.rows),
    {
        let mut n: usize = 0;
        let mut i: usize = 0;
        let ghost all = self@.rows;
        proof {
            reveal(Seq::filter);
            assert(all.take(0) =~= Seq::empty());
        }
        while i < self.rows.len()
            invariant
                i <= self.rows@.len(),
                all == self@.rows,
                n <= i,
                n == depth(all.take(i as int)),
            decreases self.rows@.len() - i,
        {
            let row = &self.rows[i];
            proof {
                reveal(Seq::filter);
                assert(all[i as int] == decision_row_view(*row));
                assert(all.take(i + 1).last() == all[i as int]);
                assert(all.take(i + 1).drop_last() =~= all.take(i as int));
            }
            if str_eq(row.decision.as_str(), "accepted") && row.would_dispatch
                && !row.comment_posted {
                n = n + 1;
            }
            i = i + 1;
        }
        proof {
            assert(all.take(i as int) =~= all);
        }
        n
    }
}

/// What a heartbeat records of the store.
pub struct Heartbeat {
    pub queue_depth: usize,
    pub events_total: usize,
    pub decisions_total: usize,
    pub last_delivery_id: Option<String>,
}

/// Takes the pulse of the store.
pub fn heartbeat_once(events: &Events, decisions: &Decisions) -> (r: Heartbeat)
    ensures
        r.queue_depth == depth(decisions@.rows),
        r.events_total == events@.rows.len(),
        r.decisions_total == decisions@.rows.len(),
        opt_view(r.last_delivery_id) == (if events@.rows.len() > 0 {
            Some(events@.rows.last().event.delivery_id)
        } else {
            None
        }),
{
    Heartbeat {
        queue_depth: decisions.queue_depth(),
        events_total: events.rows.len(),
        decisions_total: decisions.rows.len(),
        last_delivery_id: events.last_delivery_id(),
    }
}

/// An event whose delivery is not there is entered behind the others, with the next number; one whose
/// delivery is there, of the same kind of event, changes nothing.
pub proof fn law_new_events_are_entered(t: EventTable, e: Event<Seq<char>>, now: Seq<char>, k: int)
    requires
        t.last_id < i64::MAX,
    ensures
        (forall|i: int|
            0 <= i < t.rows.len() ==> (#[trigger] t.rows[i]).event.delivery_id != e.delivery_id
                || t.rows[i].event.event_type != e.event_type) ==> {
            let after = after_event(t, e, now);
            &&& after.rows.len() == t.rows.len() + 1
            &&& after.rows.drop_last() == t.rows
            &&& after.rows.last().event == e
            &&& after.rows.last().received_at == now
            &&& after.rows.last().id == t.last_id + 1
            &&& after.last_id == t.last_id + 1
        },
        0 <= k < t.rows.len() && t.rows[k].event.delivery_id == e.delivery_id
            && t.rows[k].event.event_type == e.event_type ==> after_event(t, e, now) == t,
{
    if !delivered(t.rows, e) {
        assert(after_event(t, e, now).rows.drop_last() =~= t.rows);
    }
    if 0 <= k < t.rows.len() && t.rows[k].event.delivery_id == e.delivery_id
        && t.rows[k].event.event_type == e.event_type {
        assert(same_delivery(t.rows[k].event, e));
    }
}

/// A decision is entered as it was made, on the issue of its event and by who wrote it, and is not yet
/// shown.
pub proof fn law_decisions_are_entered_as_made(
    id: i64,
    event_id: i64,
    e: Event<Seq<char>>,
    d: Decision<Seq<char>>,
    now: Seq<char>,
)
    ensures
        ({
            let r = new_decision(id, event_id, e, d, now);
            &&& r.id == id
            &&& r.event_id == event_id
            &&& r.repo_full_name == e.repo_full_name
            &&& r.issue_number == e.issue_number
            &&& r.actor_login == e.actor_login
            &&& r.directive == d.directive
            &&& r.target_role == d.target_role
            &&& r.decision == d.decision
            &&& r.reason_code == d.reason_code
            &&& r.would_dispatch == d.would_dispatch
            &&& !r.comment_posted
            &&& r.comment_error is None
            &&& r.created_at == now
        }),
{
}

/// Showing a decision changes that decision alone, and of it only whether it was shown and the error.
pub proof fn law_showing_touches_one_decision(
    r: DecisionRow<Seq<char>>,
    id: i64,
    posted: bool,
    error: Option<Seq<char>>,
)
    ensures
        r.id != id ==> after_shown(r, id, posted, error) == r,
        r.id == id ==> after_shown(r, id, posted, error) == (DecisionRow {
            comment_posted: posted,
            comment_error: error,
            ..r
        }),
{
}

/// One more decision is one more that waits exactly where it was accepted for a dispatch and is not yet
/// shown.
pub proof fn law_accepted_decisions_wait(
    rows: Seq<DecisionRow<Seq<char>>>,
    r: DecisionRow<Seq<char>>,
)
    ensures
        depth(rows.push(r)) == depth(rows) + (if r.decision == "accepted"@ && r.would_dispatch
            && !r.comment_posted {
            1int
        } else {
            0int
        }),
        depth(Seq::empty()) == 0,
{
    let keep = |x: DecisionRow<Seq<char>>| waiting(x);
    reveal(Seq::filter);
    assert(rows.push(r).drop_last() =~= rows);
}

/// The number of an issue can be stored unless it is too large.
pub proof fn law_numbers_are_stored_up_to_the_limit(n: u64)
    ensures
        storable(None),
        storable(Some(n)) <==> n <= 0x7fff_ffff_ffff_ffff,
{
}

} // verus!
