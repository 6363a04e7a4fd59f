//! The ledger of dispatches: which are under way, how one is reserved, and how it ends.

use crate::finalize::DispatchEventKind;
use crate::healing::{DispatchBackendKind, InflightDispatch};
use crate::issue::IssueResumeDispatch;
use crate::lexicon::directive_serializes_repo;
use crate::text::{
    blank, cat2, cat3, cat4, cat5, clone_opt, decimal_int, i64_text, opt_view, str_blank, str_eq,
    trim,
};
use crate::types::{law_dispatch_states_read_back, DispatchState};
use vstd::prelude::*;
use vstd::string::*;

verus! {

/// A dispatch as the store keeps it.
#[verifier::ext_equal]
pub struct DispatchRow<S> {
    pub id: i64,
    pub decision_id: i64,
    pub repo_full_name: S,
    pub issue_number: i64,
    pub actor_login: Option<S>,
    pub directive: S,
    pub target_role: S,
    pub status: S,
    pub backend_kind: Option<S>,
    pub backend_ref: Option<S>,
    pub reason_code: Option<S>,
    pub error_text: Option<S>,
    pub run_dir: Option<S>,
    pub lock_path: Option<S>,
    pub codex_session_id: Option<S>,
    pub exit_code: Option<i64>,
    pub started_at: S,
    pub ended_at: Option<S>,
}

/// A dispatch as the store keeps it, over the characters of its texts.
pub open spec fn row_view(r: DispatchRow<String>) -> DispatchRow<Seq<char>> {
    DispatchRow {
        id: r.id,
        decision_id: r.decision_id,
        repo_full_name: r.repo_full_name@,
        issue_number: r.issue_number,
        actor_login: opt_view(r.actor_login),
        directive: r.directive@,
        target_role: r.target_role@,
        status: r.status@,
        backend_kind: opt_view(r.backend_kind),
        backend_ref: opt_view(r.backend_ref),
        reason_code: opt_view(r.reason_code),
        error_text: opt_view(r.error_text),
        run_dir: opt_view(r.run_dir),
        lock_path: opt_view(r.lock_path),
        codex_session_id: opt_view(r.codex_session_id),
        exit_code: r.exit_code,
        started_at: r.started_at@,
        ended_at: opt_view(r.ended_at),
    }
}

/// A change of a dispatch as the store keeps it.
#[verifier::ext_equal]
pub struct TransitionRow<S> {
    pub dispatch_id: i64,
    pub event_kind: DispatchEventKind,
    pub from_state: Option<S>,
    pub to_state: S,
    pub reason_code: Option<S>,
    pub error_text: Option<S>,
    pub created_at: S,
}

/// A change of a dispatch, over the characters of its texts.
pub open spec fn transition_view(t: TransitionRow<String>) -> TransitionRow<Seq<char>> {
    TransitionRow {
        dispatch_id: t.dispatch_id,
        event_kind: t.event_kind,
        from_state: opt_view(t.from_state),
        to_state: t.to_state@,
        reason_code: opt_view(t.reason_code),
        error_text: opt_view(t.error_text),
        created_at: t.created_at@,
    }
}

/// The dispatches, oldest first, and their changes, oldest first. `last_id` is the highest number that
/// a dispatch ever had.
pub struct Ledger {
    pub rows: Vec<DispatchRow<String>>,
    pub events: Vec<TransitionRow<String>>,
    pub last_id: i64,
}

/// A ledger over the characters of its texts.
#[verifier::ext_equal]
pub struct Book {
    pub rows: Seq<DispatchRow<Seq<char>>>,
    pub events: Seq<TransitionRow<Seq<char>>>,
    pub last_id: i64,
}

impl Book {
    /// The dispatches are in the order of their numbers, and none is above the highest.
    pub open spec fn wf(self) -> bool {
        &&& self.last_id >= 0
        &&& forall|i: int|
            0 <= i < self.rows.len() ==> 0 < (#[trigger] self.rows[i]).id <= self.last_id
        &&& forall|i: int, j: int|
            0 <= i < j < self.rows.len() ==> (#[trigger] self.rows[i]).id < (
            #[trigger] self.rows[j]).id
    }

    /// No two dispatches of one issue are under way, and no two of one repository whose directive runs
    /// one at a time.
    pub open spec fn exclusive(self) -> bool {
        forall|i: int, j: int|
            0 <= i < j < self.rows.len() && under_way(#[trigger] self.rows[i]) && under_way(
                #[trigger] self.rows[j],
            ) ==> !competes(self.rows[i], self.rows[j])
    }
}

/// The dispatch has not ended.
pub open spec fn under_way(r: DispatchRow<Seq<char>>) -> bool {
    r.status == "starting"@ || r.status == "running"@
}

/// The two dispatches must not be under way at once.
pub open spec fn competes(a: DispatchRow<Seq<char>>, b: DispatchRow<Seq<char>>) -> bool {
    a.repo_full_name == b.repo_full_name && (a.issue_number == b.issue_number || (a.directive
        == "impl"@ && b.directive == "impl"@))
}

impl View for Ledger {
    type V = Book;

    open spec fn view(&self) -> Book {
        Book {
            rows: self.rows@.map_values(|r: DispatchRow<String>| row_view(r)),
            events: self.events@.map_values(|t: TransitionRow<String>| transition_view(t)),
            last_id: self.last_id,
        }
    }
}

/// The newest dispatch of the issue that is under way.
pub open spec fn issue_under_way(
    rows: Seq<DispatchRow<Seq<char>>>,
    repo: Seq<char>,
    issue: int,
) -> Option<i64>
    decreases rows.len(),
{
    if rows.len() == 0 {
        None
    } else {
        let r = rows.last();
        if r.repo_full_name == repo && r.issue_number == issue && under_way(r) {
            Some(r.id)
        } else {
            issue_under_way(rows.drop_last(), repo, issue)
        }
    }
}

/// The newest dispatch of the directive in the repository that is under way.
pub open spec fn repo_under_way(
    rows: Seq<DispatchRow<Seq<char>>>,
    repo: Seq<char>,
    directive: Seq<char>,
) -> Option<i64>
    decreases rows.len(),
{
    if rows.len() == 0 {
        None
    } else {
        let r = rows.last();
        if r.repo_full_name == repo && r.directive == directive && under_way(r) {
            Some(r.id)
        } else {
            repo_under_way(rows.drop_last(), repo, directive)
        }
    }
}

/// What a dispatch is reserved for.
pub struct DispatchInsert {
    pub decision_id: i64,
    pub repo_full_name: String,
    pub issue_number: u64,
    pub actor_login: Option<String>,
    pub directive: String,
    pub target_role: String,
    pub started_at: String,
}

/// How a reservation ended: with a new dispatch, or with the one that is in its way.
#[derive(Clone, Copy, PartialEq, Eq, Structural, Debug)]
pub enum DispatchReservation {
    Started(i64),
    InFlightIssue(i64),
    InFlightRepo(i64),
}

/// The dispatch that a reservation enters.
pub open spec fn starting_row(id: i64, insert: DispatchInsert) -> DispatchRow<Seq<char>> {
    DispatchRow {
        id,
        decision_id: insert.decision_id,
        repo_full_name: insert.repo_full_name@,
        issue_number: insert.issue_number as i64,
        actor_login: opt_view(insert.actor_login),
        directive: insert.directive@,
        target_role: insert.target_role@,
        status: "starting"@,
        backend_kind: None,
        backend_ref: None,
        reason_code: None,
        error_text: None,
        run_dir: None,
        lock_path: None,
        codex_session_id: None,
        exit_code: None,
        started_at: insert.started_at@,
        ended_at: None,
    }
}

/// How a reservation ends, and the ledger after it.
pub open spec fn reserved(b: Book, insert: DispatchInsert, now: Seq<char>) -> (
    Book,
    DispatchReservation,
) {
    let issue = insert.issue_number as int;
    match issue_under_way(b.rows, insert.repo_full_name@, issue) {
        Some(id) => (b, DispatchReservation::InFlightIssue(id)),
        None => match (
            insert.directive@ == "impl"@,
            repo_under_way(b.rows, insert.repo_full_name@, insert.directive@),
        ) {
            (true, Some(id)) => (b, DispatchReservation::InFlightRepo(id)),
            _ => {
                let id = (b.last_id + 1) as i64;
                (
                    Book {
                        rows: b.rows.push(starting_row(id, insert)),
                        events: b.events.push(
                            TransitionRow {
                                dispatch_id: id,
                                event_kind: DispatchEventKind::MarkStarting,
                                from_state: None,
                                to_state: "starting"@,
                                reason_code: Some("reserved_dispatch"@),
                                error_text: None,
                                created_at: now,
                            },
                        ),
                        last_id: id,
                    },
                    DispatchReservation::Started(id),
                )
            },
        },
    }
}

/// Tells whether a dispatch has not ended.
fn is_under_way(r: &DispatchRow<String>) -> (b: bool)
    ensures
        b == under_way(row_view(*r)),
{
    str_eq(r.status.as_str(), "starting") || str_eq(r.status.as_str(), "running")
}

impl Ledger {
    /// An empty ledger.
    pub fn new() -> (r: Ledger)
        ensures
            r@ == (Book { rows: Seq::empty(), events: Seq::empty(), last_id: 0 }),
            r@.wf(),
            r@.exclusive(),
    {
        let r = Ledger { rows: Vec::new(), events: Vec::new(), last_id: 0 };
        proof {
            assert(r@.rows =~= Seq::empty());
            assert(r@.events =~= Seq::empty());
        }
        r
    }

    /// The newest dispatch of the issue that is under way.
    pub fn latest_issue_inflight(&self, repo_full_name: &str, issue_number: i64) -> (r: Option<i64>)
        ensures
            r == issue_under_way(self@.rows, repo_full_name@, issue_number as int),
    {
        let mut i: usize = self.rows.len();
        let ghost all = self@.rows;
        proof {
            assert(all.take(i as int) =~= all);
        }
        while i > 0
            invariant
                i <= self.rows@.len(),
                all == self@.rows,
                issue_under_way(all, repo_full_name@, issue_number as int) == issue_under_way(
                    all.take(i as int),
                    repo_full_name@,
                    issue_number as int,
                ),
            decreases i,
        {
            let row = &self.rows[i - 1];
            proof {
                assert(all.take(i as int).last() == row_view(*row));
                assert(all.take(i as int).drop_last() =~= all.take(i - 1));
            }
            if str_eq(row.repo_full_name.as_str(), repo_full_name) && row.issue_number
                == issue_number && is_under_way(row) {
                return Some(row.id);
            }
            i = i - 1;
        }
        None
    }

    /// The newest dispatch of the directive in the repository that is under way.
    fn latest_repo_inflight(&self, repo_full_name: &str, directive: &str) -> (r: Option<i64>)
        ensures
            r == repo_under_way(self@.rows, repo_full_name@, directive@),
    {
        let mut i: usize = self.rows.len();
        let ghost all = self@.rows;
        proof {
            assert(all.take(i as int) =~= all);
        }
        while i > 0
            invariant
                i <= self.rows@.len(),
                all == self@.rows,
                repo_under_way(all, repo_full_name@, directive@) == repo_under_way(
                    all.take(i as int),
                    repo_full_name@,
                    directive@,
                ),
            decreases i,
        {
            let row = &self.rows[i - 1];
            proof {
                assert(all.take(i as int).last() == row_view(*row));
                assert(all.take(i as int).drop_last() =~= all.take(i - 1));
            }
            if str_eq(row.repo_full_name.as_str(), repo_full_name) && str_eq(
                row.directive.as_str(),
                directive,
            ) && is_under_way(row) {
                return Some(row.id);
            }
            i = i - 1;
        }
        None
    }

    /// The newest dispatch of the repository that implements something and is under way.
    pub fn latest_repo_inflight_impl_dispatch_id(&self, repo_full_name: &str) -> (r: Option<i64>)
        ensures
            r == repo_under_way(self@.rows, repo_full_name@, "impl"@),
    {
        self.latest_repo_inflight(repo_full_name, "impl")
    }

    /// Enters a change of a dispatch.
    fn append_dispatch_event(&mut self, event: TransitionRow<String>)
        ensures
            final(self)@ == (Book {
                events: old(self)@.events.push(transition_view(event)),
                ..old(self)@
            }),
    {
        self.events.push(event);
        proof {
            assert(self@.events =~= old(self)@.events.push(transition_view(event)));
            assert(self@.rows =~= old(self)@.rows);
        }
    }

    /// Reserves a dispatch, where none is in its way. The ledger takes it as starting.
    pub fn reserve_dispatch_starting(&mut self, insert: DispatchInsert, now: &str) -> (r: Result<
        DispatchReservation,
        String,
    >)
        requires
            old(self).last_id < i64::MAX,
        ensures
            insert.issue_number > i64::MAX ==> {
                &&& final(self)@ == old(self)@
                &&& r matches Err(e)
                &&& e@ == "out of range integral type conversion attempted"@
            },
            insert.issue_number <= i64::MAX ==> {
                &&& final(self)@ == reserved(old(self)@, insert, now@).0
                &&& r == Ok::<DispatchReservation, String>(reserved(old(self)@, insert, now@).1)
            },
    {
        if insert.issue_number > 9_223_372_036_854_775_807 {
            return Err("out of range integral type conversion attempted".to_owned());
        }
        let issue: i64 = insert.issue_number as i64;
        if let Some(id) = self.latest_issue_inflight(insert.repo_full_name.as_str(), issue) {
            return Ok(DispatchReservation::InFlightIssue(id));
        }
        if directive_serializes_repo(insert.directive.as_str()) {
            if let Some(id) = self.latest_repo_inflight(
                insert.repo_full_name.as_str(),
                insert.directive.as_str(),
            ) {
                return Ok(DispatchReservation::InFlightRepo(id));
            }
        }
        let ghost before = self@;
        let ghost asked = insert;
        let id: i64 = self.last_id + 1;
        self.last_id = id;
        self.rows.push(
            DispatchRow {
                id,
                decision_id: insert.decision_id,
                repo_full_name: insert.repo_full_name,
                issue_number: issue,
                actor_login: insert.actor_login,
                directive: insert.directive,
                target_role: insert.target_role,
                status: "starting".to_owned(),
                backend_kind: None,
                backend_ref: None,
                reason_code: None,
                error_text: None,
                run_dir: None,
                lock_path: None,
                codex_session_id: None,
                exit_code: None,
                started_at: insert.started_at,
                ended_at: None,
            },
        );
        proof {
            assert(self@.rows =~= before.rows.push(starting_row(id, asked)));
            assert(self@.events =~= before.events);
        }
        self.append_dispatch_event(
            TransitionRow {
                dispatch_id: id,
                event_kind: DispatchEventKind::MarkStarting,
                from_state: None,
                to_state: "starting".to_owned(),
                reason_code: Some("reserved_dispatch".to_owned()),
                error_text: None,
                created_at: now.to_owned(),
            },
        );
        Ok(DispatchReservation::Started(id))
    }
}

/// Where no dispatch of the issue is found under way, none is.
proof fn lemma_issue_free(rows: Seq<DispatchRow<Seq<char>>>, repo: Seq<char>, issue: int, i: int)
    requires
        issue_under_way(rows, repo, issue) is None,
        0 <= i < rows.len(),
        under_way(rows[i]),
        rows[i].repo_full_name == repo,
    ensures
        rows[i].issue_number != issue,
    decreases rows.len(),
{
    if i < rows.len() - 1 {
        assert(rows.drop_last()[i] == rows[i]);
        lemma_issue_free(rows.drop_last(), repo, issue, i);
    }
}

/// Where no dispatch of the directive is found under way, none is.
proof fn lemma_repo_free(
    rows: Seq<DispatchRow<Seq<char>>>,
    repo: Seq<char>,
    directive: Seq<char>,
    i: int,
)
    requires
        repo_under_way(rows, repo, directive) is None,
        0 <= i < rows.len(),
        under_way(rows[i]),
        rows[i].repo_full_name == repo,
    ensures
        rows[i].directive != directive,
    decreases rows.len(),
{
    if i < rows.len() - 1 {
        assert(rows.drop_last()[i] == rows[i]);
        lemma_repo_free(rows.drop_last(), repo, directive, i);
    }
}

/// A reservation keeps the ledger in order, and never lets two dispatches that compete be under way.
pub proof fn law_reservations_are_exclusive(b: Book, insert: DispatchInsert, now: Seq<char>)
    requires
        b.wf(),
        b.exclusive(),
        b.last_id < i64::MAX,
        insert.issue_number <= i64::MAX,
    ensures
        reserved(b, insert, now).0.wf(),
        reserved(b, insert, now).0.exclusive(),
{
    let after = reserved(b, insert, now).0;
    if after.rows.len() > b.rows.len() {
        let n = b.rows.len() as int;
        assert forall|i: int| 0 <= i < n && under_way(b.rows[i]) implies !competes(
            b.rows[i],
            after.rows[n],
        ) by {
            if b.rows[i].repo_full_name == insert.repo_full_name@ {
                lemma_issue_free(
                    b.rows,
                    insert.repo_full_name@,
                    insert.issue_number as int,
                    i,
                );
                if insert.directive@ == "impl"@ {
                    lemma_repo_free(b.rows, insert.repo_full_name@, insert.directive@, i);
                }
            }
        }
        assert forall|i: int, j: int|
            0 <= i < j < after.rows.len() && under_way(#[trigger] after.rows[i]) && under_way(
                #[trigger] after.rows[j],
            ) implies !competes(after.rows[i], after.rows[j]) by {
            assert(after.rows[i] == b.rows[i]);
            if j < n {
                assert(after.rows[j] == b.rows[j]);
            }
        }
    }
}

/// The state that follows, where the change is one that the state admits: a dispatch that starts can
/// run or fail to start, one under way can end in each way, and one that ended stays as it is.
pub open spec fn next_state(s: DispatchState, event: DispatchEventKind) -> Option<DispatchState> {
    match event {
        DispatchEventKind::MarkStarting => None,
        DispatchEventKind::MarkRunning => if s == DispatchState::Starting {
            Some(DispatchState::Running)
        } else {
            None
        },
        DispatchEventKind::FailStart => if s == DispatchState::Starting {
            Some(DispatchState::FailedStart)
        } else {
            None
        },
        DispatchEventKind::Complete => if s.in_flight() {
            Some(DispatchState::Completed)
        } else {
            None
        },
        DispatchEventKind::Timeout => if s.in_flight() {
            Some(DispatchState::TimedOut)
        } else {
            None
        },
        DispatchEventKind::FailRuntime => if s.in_flight() {
            Some(DispatchState::FailedRuntime)
        } else {
            None
        },
        DispatchEventKind::HealStale => if s.in_flight() {
            Some(DispatchState::FailedRuntime)
        } else {
            None
        },
        DispatchEventKind::Block => if s.in_flight() {
            Some(DispatchState::Blocked)
        } else {
            None
        },
    }
}

/// What is said of a change that the state does not admit.
pub open spec fn rejection(s: DispatchState, event: DispatchEventKind) -> Seq<char> {
    "event "@ + event.word() + " not allowed in state "@ + s.word()
}

/// The state that follows, or what is said where none does.
pub fn reduce_dispatch_state(s: DispatchState, event: DispatchEventKind) -> (r: Result<
    DispatchState,
    String,
>)
    ensures
        match next_state(s, event) {
            Some(n) => r == Ok::<DispatchState, String>(n),
            None => r matches Err(e) && e@ == rejection(s, event),
        },
{
    let under_way = !s.is_terminal();
    let starting = s == DispatchState::Starting;
    match event {
        DispatchEventKind::MarkRunning if starting => Ok(DispatchState::Running),
        DispatchEventKind::FailStart if starting => Ok(DispatchState::FailedStart),
        DispatchEventKind::Complete if under_way => Ok(DispatchState::Completed),
        DispatchEventKind::Timeout if under_way => Ok(DispatchState::TimedOut),
        DispatchEventKind::FailRuntime if under_way => Ok(DispatchState::FailedRuntime),
        DispatchEventKind::HealStale if under_way => Ok(DispatchState::FailedRuntime),
        DispatchEventKind::Block if under_way => Ok(DispatchState::Blocked),
        _ => Err(cat4("event ", event.as_db_str(), " not allowed in state ", s.as_db_str())),
    }
}

/// Where the dispatch of the number stands in the ledger, or -1.
pub open spec fn place_of(rows: Seq<DispatchRow<Seq<char>>>, id: i64) -> int
    decreases rows.len(),
{
    if rows.len() == 0 {
        -1
    } else if rows.last().id == id {
        rows.len() - 1
    } else {
        place_of(rows.drop_last(), id)
    }
}

/// The place of a dispatch is one of the ledger.
proof fn lemma_place(rows: Seq<DispatchRow<Seq<char>>>, id: i64)
    ensures
        -1 <= place_of(rows, id) < rows.len(),
        place_of(rows, id) >= 0 ==> rows[place_of(rows, id)].id == id,
    decreases rows.len(),
{
    if rows.len() > 0 {
        lemma_place(rows.drop_last(), id);
    }
}

/// The change of a dispatch: where it stands and the state that follows. None where there is no such
/// dispatch, an error where its state is not known or does not admit the change.
pub open spec fn planned(b: Book, id: i64, event: DispatchEventKind) -> Result<
    Option<(int, DispatchState)>,
    Seq<char>,
> {
    let i = place_of(b.rows, id);
    if i < 0 {
        Ok(None)
    } else {
        match DispatchState::of_word(b.rows[i].status) {
            None => Err(
                "dispatch "@ + decimal_int(id as int) + " has unknown status literal '"@
                    + b.rows[i].status + "'"@,
            ),
            Some(s) => match next_state(s, event) {
                Some(n) => Ok(Some((i, n))),
                None => Err(
                    "dispatch "@ + decimal_int(id as int) + " transition rejected: "@ + rejection(
                        s,
                        event,
                    ),
                ),
            },
        }
    }
}

/// The ledger after a change: the dispatch is as the change leaves it, and the change is entered.
pub open spec fn changed(
    b: Book,
    i: int,
    row: DispatchRow<Seq<char>>,
    event: DispatchEventKind,
    reason: Seq<char>,
    error: Option<Seq<char>>,
    now: Seq<char>,
) -> Book {
    Book {
        rows: b.rows.update(i, row),
        events: b.events.push(
            TransitionRow {
                dispatch_id: row.id,
                event_kind: event,
                from_state: Some(b.rows[i].status),
                to_state: row.status,
                reason_code: Some(reason),
                error_text: error,
                created_at: now,
            },
        ),
        ..b
    }
}

impl Ledger {
    /// Where the dispatch of the number stands.
    fn position(&self, id: i64) -> (r: Option<usize>)
        ensures
            match r {
                Some(i) => i == place_of(self@.rows, id) && i < self.rows@.len(),
                None => place_of(self@.rows, id) == -1,
            },
    {
        let mut i: usize = self.rows.len();
        let ghost all = self@.rows;
        proof {
            assert(all.take(i as int) =~= all);
        }
        while i > 0
            invariant
                i <= self.rows@.len(),
                all == self@.rows,
                place_of(all, id) == place_of(all.take(i as int), id),
            decreases i,
        {
            proof {
                assert(all.take(i as int).last() == row_view(self.rows@[i - 1]));
                assert(all.take(i as int).drop_last() =~= all.take(i - 1));
            }
            if self.rows[i - 1].id == id {
                return Some(i - 1);
            }
            i = i - 1;
        }
        None
    }

    /// The change of a dispatch: where it stands and the state that follows.
    pub fn plan_dispatch_transition(&self, id: i64, event: DispatchEventKind) -> (r: Result<
        Option<(usize, DispatchState)>,
        String,
    >)
        ensures
            match (r, planned(self@, id, event)) {
                (Ok(None), Ok(None)) => true,
                (Ok(Some(p)), Ok(Some(q))) => p.0 == q.0 && p.1 == q.1 && p.0 < self.rows@.len(),
                (Err(e), Err(says)) => e@ == says,
                _ => false,
            },
    {
        match self.position(id) {
            None => Ok(None),
            Some(i) => {
                let status = self.rows[i].status.as_str();
                let n = i64_text(id);
                match DispatchState::parse_db(status) {
                    None => Err(
                        cat5("dispatch ", n.as_str(), " has unknown status literal '", status, "'"),
                    ),
                    Some(s) => match reduce_dispatch_state(s, event) {
                        Ok(next) => Ok(Some((i, next))),
                        Err(e) => Err(
                            cat4("dispatch ", n.as_str(), " transition rejected: ", e.as_str()),
                        ),
                    },
                }
            },
        }
    }
}

/// A change that leaves a dispatch where it is and brings none back under way keeps the ledger in
/// order and exclusive.
proof fn lemma_change_keeps(
    b: Book,
    i: int,
    row: DispatchRow<Seq<char>>,
    event: DispatchEventKind,
    reason: Seq<char>,
    error: Option<Seq<char>>,
    now: Seq<char>,
)
    requires
        0 <= i < b.rows.len(),
        row.id == b.rows[i].id,
        row.repo_full_name == b.rows[i].repo_full_name,
        row.issue_number == b.rows[i].issue_number,
        row.directive == b.rows[i].directive,
        under_way(row) ==> under_way(b.rows[i]),
    ensures
        b.wf() ==> changed(b, i, row, event, reason, error, now).wf(),
        b.exclusive() ==> changed(b, i, row, event, reason, error, now).exclusive(),
{
    let after = changed(b, i, row, event, reason, error, now);
    if b.exclusive() {
        assert forall|j: int, k: int|
            0 <= j < k < after.rows.len() && under_way(#[trigger] after.rows[j]) && under_way(
                #[trigger] after.rows[k],
            ) implies !competes(after.rows[j], after.rows[k]) by {
            assert(under_way(b.rows[j]) && under_way(b.rows[k]));
            assert(!competes(b.rows[j], b.rows[k]));
        }
    }
    if b.wf() {
        assert forall|j: int| 0 <= j < after.rows.len() implies 0 < (#[trigger] after.rows[j]).id
            <= after.last_id by {
            assert(after.rows[j].id == b.rows[j].id);
        }
        assert forall|j: int, k: int| 0 <= j < k < after.rows.len() implies (
        #[trigger] after.rows[j]).id < (#[trigger] after.rows[k]).id by {
            assert(after.rows[j].id == b.rows[j].id);
            assert(after.rows[k].id == b.rows[k].id);
        }
    }
}

/// The words of the states under way and of the others differ.
proof fn lemma_state_words(s: DispatchState)
    ensures
        s.in_flight() <==> (s.word() == "starting"@ || s.word() == "running"@),
{
    law_dispatch_states_read_back(s, s.word());
    law_dispatch_states_read_back(DispatchState::Starting, s.word());
    law_dispatch_states_read_back(DispatchState::Running, s.word());
}

/// A dispatch that ended stays as it ended.
pub proof fn law_ended_dispatches_stay(s: DispatchState, event: DispatchEventKind)
    requires
        !s.in_flight(),
    ensures
        next_state(s, event) is None,
{
}

/// The ledger after a run was launched.
pub open spec fn launched(
    b: Book,
    id: i64,
    backend: (Seq<char>, Seq<char>),
    run_dir: Seq<char>,
    lock_path: Seq<char>,
    now: Seq<char>,
) -> Result<Book, Seq<char>> {
    match planned(b, id, DispatchEventKind::MarkRunning) {
        Err(e) => Err(e),
        Ok(None) => Err("dispatch "@ + decimal_int(id as int) + " not found"@),
        Ok(Some(p)) => Ok(
            changed(
                b,
                p.0,
                DispatchRow {
                    status: p.1.word(),
                    backend_kind: Some(backend.0),
                    backend_ref: Some(backend.1),
                    run_dir: Some(run_dir),
                    lock_path: Some(lock_path),
                    ..b.rows[p.0]
                },
                DispatchEventKind::MarkRunning,
                "launch_ok"@,
                None,
                now,
            ),
        ),
    }
}

/// The ledger after a dispatch failed: its state, the reason, what was said, and when.
pub open spec fn failed(
    b: Book,
    p: (int, DispatchState),
    event: DispatchEventKind,
    reason: Seq<char>,
    error: Seq<char>,
    now: Seq<char>,
) -> Book {
    changed(
        b,
        p.0,
        DispatchRow {
            status: p.1.word(),
            reason_code: Some(reason),
            error_text: Some(error),
            ended_at: Some(now),
            ..b.rows[p.0]
        },
        event,
        reason,
        Some(error),
        now,
    )
}

/// The ledger after a dispatch failed to start.
pub open spec fn start_failed(
    b: Book,
    id: i64,
    reason: Seq<char>,
    error: Seq<char>,
    now: Seq<char>,
) -> Result<Book, Seq<char>> {
    match planned(b, id, DispatchEventKind::FailStart) {
        Err(e) => Err(e),
        Ok(None) => Err("dispatch "@ + decimal_int(id as int) + " not found"@),
        Ok(Some(p)) => Ok(failed(b, p, DispatchEventKind::FailStart, reason, error, now)),
    }
}

/// What ends a dispatch while it runs: the healing of a stale one has a name of its own.
pub open spec fn runtime_event(reason: Seq<char>) -> DispatchEventKind {
    if reason == "stale_dispatch_autohealed"@ {
        DispatchEventKind::HealStale
    } else {
        DispatchEventKind::FailRuntime
    }
}

/// The ledger after a dispatch failed while it ran. Where there is no such dispatch, nothing changes.
pub open spec fn runtime_failed(
    b: Book,
    id: i64,
    reason: Seq<char>,
    error: Seq<char>,
    now: Seq<char>,
) -> Result<Book, Seq<char>> {
    match planned(b, id, runtime_event(reason)) {
        Err(e) => Err(e),
        Ok(None) => Ok(b),
        Ok(Some(p)) => Ok(failed(b, p, runtime_event(reason), reason, error, now)),
    }
}

/// How a dispatch ended.
pub struct DispatchEnd<S> {
    pub event_kind: DispatchEventKind,
    pub reason_code: S,
    pub exit_code: i64,
    pub session_id: Option<S>,
}

/// The ledger after a dispatch ended, and whether it changed: one that there is not, whose state is not
/// known or that ended before is left as it is.
pub open spec fn ended(b: Book, id: i64, end: DispatchEnd<Seq<char>>, now: Seq<char>) -> Result<
    (Book, bool),
    Seq<char>,
> {
    let i = place_of(b.rows, id);
    if i < 0 {
        Ok((b, false))
    } else {
        match DispatchState::of_word(b.rows[i].status) {
            None => Ok((b, false)),
            Some(s) => if !s.in_flight() {
                Ok((b, false))
            } else {
                match next_state(s, end.event_kind) {
                    None => Err(
                        "terminal transition rejected for dispatch "@ + decimal_int(id as int)
                            + ": "@ + rejection(s, end.event_kind),
                    ),
                    Some(n) => Ok(
                        (
                            changed(
                                b,
                                i,
                                DispatchRow {
                                    status: n.word(),
                                    reason_code: Some(end.reason_code),
                                    codex_session_id: match end.session_id {
                                        Some(t) if !blank(t) => Some(t),
                                        _ => None,
                                    },
                                    exit_code: Some(end.exit_code),
                                    ended_at: Some(now),
                                    ..b.rows[i]
                                },
                                end.event_kind,
                                end.reason_code,
                                None,
                                now,
                            ),
                            true,
                        ),
                    ),
                }
            },
        }
    }
}

impl Ledger {
    /// Enters that the run of a dispatch was launched.
    pub fn update_dispatch_running(
        &mut self,
        id: i64,
        backend_kind: &str,
        backend_ref: &str,
        run_dir: &str,
        lock_path: &str,
        now: &str,
    ) -> (r: Result<(), String>)
        ensures
            match (
                r,
                launched(
                    old(self)@,
                    id,
                    (backend_kind@, backend_ref@),
                    run_dir@,
                    lock_path@,
                    now@,
                ),
            ) {
                (Ok(_), Ok(after)) => final(self)@ == after,
                (Err(e), Err(says)) => e@ == says && final(self)@ == old(self)@,
                _ => false,
            },
            old(self)@.wf() ==> final(self)@.wf(),
            old(self)@.exclusive() ==> final(self)@.exclusive(),
    {
        let plan = self.plan_dispatch_transition(id, DispatchEventKind::MarkRunning);
        match plan {
            Err(e) => Err(e),
            Ok(None) => {
                let n = i64_text(id);
                Err(cat3("dispatch ", n.as_str(), " not found"))
            },
            Ok(Some((i, next))) => {
                let ghost before = self@;
                proof {
                    lemma_place(before.rows, id);
                }
                let from = self.rows[i].status.clone();
                let row = &mut self.rows[i];
                row.status = next.as_db_str().to_owned();
                row.backend_kind = Some(backend_kind.to_owned());
                row.backend_ref = Some(backend_ref.to_owned());
                row.run_dir = Some(run_dir.to_owned());
                row.lock_path = Some(lock_path.to_owned());
                let ghost after = row_view(self.rows@[i as int]);
                proof {
                    assert(self@.rows =~= before.rows.update(i as int, after));
                    assert(self@.events =~= before.events);
                    lemma_state_words(next);
                    law_dispatch_states_read_back(next, before.rows[i as int].status);
                    lemma_change_keeps(
                        before,
                        i as int,
                        after,
                        DispatchEventKind::MarkRunning,
                        "launch_ok"@,
                        None,
                        now@,
                    );
                }
                self.append_dispatch_event(
                    TransitionRow {
                        dispatch_id: id,
                        event_kind: DispatchEventKind::MarkRunning,
                        from_state: Some(from),
                        to_state: next.as_db_str().to_owned(),
                        reason_code: Some("launch_ok".to_owned()),
                        error_text: None,
                        created_at: now.to_owned(),
                    },
                );
                Ok(())
            },
        }
    }
}

/// How a dispatch ended, over the characters of its texts.
pub open spec fn end_view(e: DispatchEnd<String>) -> DispatchEnd<Seq<char>> {
    DispatchEnd {
        event_kind: e.event_kind,
        reason_code: e.reason_code@,
        exit_code: e.exit_code,
        session_id: opt_view(e.session_id),
    }
}

impl Ledger {
    /// Enters that a dispatch failed.
    fn enter_failure(
        &mut self,
        i: usize,
        next: DispatchState,
        event: DispatchEventKind,
        reason_code: &str,
        error_text: &str,
        now: &str,
    )
        requires
            i < old(self).rows@.len(),
            !next.in_flight(),
        ensures
            final(self)@ == failed(
                old(self)@,
                (i as int, next),
                event,
                reason_code@,
                error_text@,
                now@,
            ),
            old(self)@.wf() ==> final(self)@.wf(),
            old(self)@.exclusive() ==> final(self)@.exclusive(),
    {
        let ghost before = self@;
        let from = self.rows[i].status.clone();
        let id: i64 = self.rows[i].id;
        let row = &mut self.rows[i];
        row.status = next.as_db_str().to_owned();
        row.reason_code = Some(reason_code.to_owned());
        row.error_text = Some(error_text.to_owned());
        row.ended_at = Some(now.to_owned());
        let ghost after = row_view(self.rows@[i as int]);
        proof {
            assert(self@.rows =~= before.rows.update(i as int, after));
            assert(self@.events =~= before.events);
            lemma_state_words(next);
            lemma_change_keeps(
                before,
                i as int,
                after,
                event,
                reason_code@,
                Some(error_text@),
                now@,
            );
        }
        self.append_dispatch_event(
            TransitionRow {
                dispatch_id: id,
                event_kind: event,
                from_state: Some(from),
                to_state: next.as_db_str().to_owned(),
                reason_code: Some(reason_code.to_owned()),
                error_text: Some(error_text.to_owned()),
                created_at: now.to_owned(),
            },
        );
    }

    /// Enters that a dispatch failed to start.
    pub fn update_dispatch_failed_start(
        &mut self,
        id: i64,
        reason_code: &str,
        error_text: &str,
        now: &str,
    ) -> (r: Result<(), String>)
        ensures
            match (r, start_failed(old(self)@, id, reason_code@, error_text@, now@)) {
                (Ok(_), Ok(after)) => final(self)@ == after,
                (Err(e), Err(says)) => e@ == says && final(self)@ == old(self)@,
                _ => false,
            },
            old(self)@.wf() ==> final(self)@.wf(),
            old(self)@.exclusive() ==> final(self)@.exclusive(),
    {
        let plan = self.plan_dispatch_transition(id, DispatchEventKind::FailStart);
        match plan {
            Err(e) => Err(e),
            Ok(None) => {
                let n = i64_text(id);
                Err(cat3("dispatch ", n.as_str(), " not found"))
            },
            Ok(Some((i, next))) => {
                self.enter_failure(
                    i,
                    next,
                    DispatchEventKind::FailStart,
                    reason_code,
                    error_text,
                    now,
                );
                Ok(())
            },
        }
    }

    /// Enters that a dispatch failed while it ran.
    pub fn mark_dispatch_failed_runtime(
        &mut self,
        id: i64,
        reason_code: &str,
        error_text: &str,
        now: &str,
    ) -> (r: Result<(), String>)
        ensures
            match (r, runtime_failed(old(self)@, id, reason_code@, error_text@, now@)) {
                (Ok(_), Ok(after)) => final(self)@ == after,
                (Err(e), Err(says)) => e@ == says && final(self)@ == old(self)@,
                _ => false,
            },
            old(self)@.wf() ==> final(self)@.wf(),
            old(self)@.exclusive() ==> final(self)@.exclusive(),
    {
        let event = if str_eq(reason_code, "stale_dispatch_autohealed") {
            DispatchEventKind::HealStale
        } else {
            DispatchEventKind::FailRuntime
        };
        let plan = self.plan_dispatch_transition(id, event);
        match plan {
            Err(e) => Err(e),
            Ok(None) => Ok(()),
            Ok(Some((i, next))) => {
                self.enter_failure(i, next, event, reason_code, error_text, now);
                Ok(())
            },
        }
    }

    /// Enters how a dispatch ended, and tells whether it was under way until now.
    pub fn update_dispatch_terminal(&mut self, id: i64, end: DispatchEnd<String>, now: &str) -> (r:
        Result<bool, String>)
        ensures
            match (r, ended(old(self)@, id, end_view(end), now@)) {
                (Ok(b), Ok(after)) => b == after.1 && final(self)@ == after.0,
                (Err(e), Err(says)) => e@ == says && final(self)@ == old(self)@,
                _ => false,
            },
            old(self)@.wf() ==> final(self)@.wf(),
            old(self)@.exclusive() ==> final(self)@.exclusive(),
    {
        let i: usize = match self.position(id) {
            None => return Ok(false),
            Some(i) => i,
        };
        let s = match DispatchState::parse_db(self.rows[i].status.as_str()) {
            None => return Ok(false),
            Some(s) => s,
        };
        if s.is_terminal() {
            return Ok(false);
        }
        let next = match reduce_dispatch_state(s, end.event_kind) {
            Ok(n) => n,
            Err(e) => {
                let n = i64_text(id);
                return Err(
                    cat4(
                        "terminal transition rejected for dispatch ",
                        n.as_str(),
                        ": ",
                        e.as_str(),
                    ),
                );
            },
        };
        let ghost before = self@;
        proof {
            lemma_place(before.rows, id);
        }
        let from = self.rows[i].status.clone();
        let session = match &end.session_id {
            Some(t) => if str_blank(t.as_str()) {
                None
            } else {
                Some(t.clone())
            },
            None => None,
        };
        let row = &mut self.rows[i];
        row.status = next.as_db_str().to_owned();
        row.reason_code = Some(end.reason_code.clone());
        row.codex_session_id = session;
        row.exit_code = Some(end.exit_code);
        row.ended_at = Some(now.to_owned());
        let ghost after = row_view(self.rows@[i as int]);
        proof {
            assert(self@.rows =~= before.rows.update(i as int, after));
            assert(self@.events =~= before.events);
            lemma_state_words(s);
            law_dispatch_states_read_back(s, before.rows[i as int].status);
            lemma_change_keeps(
                before,
                i as int,
                after,
                end.event_kind,
                end.reason_code@,
                None,
                now@,
            );
        }
        self.append_dispatch_event(
            TransitionRow {
                dispatch_id: id,
                event_kind: end.event_kind,
                from_state: Some(from),
                to_state: next.as_db_str().to_owned(),
                reason_code: Some(end.reason_code),
                error_text: None,
                created_at: now.to_owned(),
            },
        );
        Ok(true)
    }
}

/// A dispatch keeps its place when its row changes.
proof fn lemma_place_stays(
    rows: Seq<DispatchRow<Seq<char>>>,
    i: int,
    row: DispatchRow<Seq<char>>,
    id: i64,
)
    requires
        0 <= i < rows.len(),
        row.id == rows[i].id,
    ensures
        place_of(rows.update(i, row), id) == place_of(rows, id),
    decreases rows.len(),
{
    let after = rows.update(i, row);
    if after.last().id != id {
        if i < rows.len() - 1 {
            assert(after.drop_last() =~= rows.drop_last().update(i, row));
            lemma_place_stays(rows.drop_last(), i, row, id);
        } else {
            assert(after.drop_last() =~= rows.drop_last());
        }
    }
}

/// A dispatch ends once: whatever is said of its end afterwards, nothing is entered, and it is told that
/// nothing was.
pub proof fn law_dispatches_end_once(
    b: Book,
    id: i64,
    end: DispatchEnd<Seq<char>>,
    now: Seq<char>,
    again: DispatchEnd<Seq<char>>,
    later: Seq<char>,
)
    requires
        ended(b, id, end, now) is Ok,
        end.event_kind != DispatchEventKind::MarkRunning,
    ensures
        ({
            let after = ended(b, id, end, now)->Ok_0.0;
            ended(after, id, again, later) == Ok::<(Book, bool), Seq<char>>((after, false))
        }),
{
    let i = place_of(b.rows, id);
    let after = ended(b, id, end, now)->Ok_0.0;
    if ended(b, id, end, now)->Ok_0.1 {
        lemma_place(b.rows, id);
        let s = DispatchState::of_word(b.rows[i].status)->0;
        let n = next_state(s, end.event_kind)->0;
        lemma_place_stays(b.rows, i, after.rows[i], id);
        law_dispatch_states_read_back(n, n.word());
        assert(after.rows[i].status == n.word());
        assert(!n.in_flight());
    }
}

/// The session of the newest dispatch of the issue that has one.
pub open spec fn issue_session(
    rows: Seq<DispatchRow<Seq<char>>>,
    repo: Seq<char>,
    issue: int,
) -> Option<Seq<char>>
    decreases rows.len(),
{
    if rows.len() == 0 {
        None
    } else {
        let r = rows.last();
        match r.codex_session_id {
            Some(t) if t.len() > 0 && r.repo_full_name == repo && r.issue_number == issue => Some(
                t,
            ),
            _ => issue_session(rows.drop_last(), repo, issue),
        }
    }
}

impl Ledger {
    /// The session of the newest dispatch of the issue that has one.
    pub fn latest_issue_codex_session_id(&self, repo_full_name: &str, issue_number: u64) -> (r:
        Result<Option<String>, String>)
        ensures
            issue_number > i64::MAX ==> (r matches Err(e) && e@
                == "out of range integral type conversion attempted"@),
            issue_number <= i64::MAX ==> (r matches Ok(t) && opt_view(t) == issue_session(
                self@.rows,
                repo_full_name@,
                issue_number as int,
            )),
    {
        if issue_number > 9_223_372_036_854_775_807 {
            return Err("out of range integral type conversion attempted".to_owned());
        }
        let issue: i64 = issue_number as i64;
        let mut i: usize = self.rows.len();
        let ghost all = self@.rows;
        proof {
            assert(all.take(i as int) =~= all);
        }
        while i > 0
            invariant
                i <= self.rows@.len(),
                all == self@.rows,
                issue == issue_number,
                issue_number <= i64::MAX,
                issue_session(all, repo_full_name@, issue as int) == issue_session(
                    all.take(i as int),
                    repo_full_name@,
                    issue as int,
                ),
            decreases i,
        {
            let row = &self.rows[i - 1];
            proof {
                assert(all.take(i as int).last() == row_view(*row));
                assert(all.take(i as int).drop_last() =~= all.take(i - 1));
            }
            if let Some(t) = &row.codex_session_id {
                if !t.as_str().is_empty() && str_eq(row.repo_full_name.as_str(), repo_full_name)
                    && row.issue_number == issue {
                    return Ok(Some(t.clone()));
                }
            }
            i = i - 1;
        }
        Ok(None)
    }
}

/// The dispatch is one of the issue, and of the role where one is asked for, and has a session.
pub open spec fn has_session(
    r: DispatchRow<Seq<char>>,
    repo: Seq<char>,
    issue: int,
    role: Option<Seq<char>>,
) -> bool {
    &&& r.repo_full_name == repo
    &&& r.issue_number == issue
    &&& role matches Some(name) ==> r.target_role == name
    &&& r.codex_session_id matches Some(t) && t.len() > 0
}

/// The dispatches of the issue that have a session, the newest first.
pub open spec fn with_session(
    rows: Seq<DispatchRow<Seq<char>>>,
    repo: Seq<char>,
    issue: int,
    role: Option<Seq<char>>,
) -> Seq<DispatchRow<Seq<char>>>
    decreases rows.len(),
{
    if rows.len() == 0 {
        Seq::empty()
    } else {
        let rest = with_session(rows.drop_last(), repo, issue, role);
        if has_session(rows.last(), repo, issue, role) {
            seq![rows.last()] + rest
        } else {
            rest
        }
    }
}

/// Tells whether the dispatch is one of the issue and of the role that has a session.
fn row_has_session(row: &DispatchRow<String>, repo: &str, issue: i64, role: &Option<String>) -> (r:
    bool)
    ensures
        r == has_session(row_view(*row), repo@, issue as int, opt_view(*role)),
{
    let has = match &row.codex_session_id {
        Some(t) => !t.as_str().is_empty(),
        None => false,
    };
    let wanted = match role {
        Some(name) => str_eq(row.target_role.as_str(), name.as_str()),
        None => true,
    };
    has && wanted && str_eq(row.repo_full_name.as_str(), repo) && row.issue_number == issue
}

/// The first state among the dispatches that is none of the ledger's words.
pub open spec fn unknown_state(rows: Seq<DispatchRow<Seq<char>>>) -> Option<Seq<char>>
    decreases rows.len(),
{
    if rows.len() == 0 {
        None
    } else {
        match unknown_state(rows.drop_last()) {
            Some(word) => Some(word),
            None => if DispatchState::of_word(rows.last().status) is None {
                Some(rows.last().status)
            } else {
                None
            },
        }
    }
}

/// The dispatch whose session can be taken up is the one of the ledger.
pub open spec fn resumes(d: IssueResumeDispatch, r: DispatchRow<Seq<char>>) -> bool {
    &&& d.id == r.id
    &&& DispatchState::of_word(r.status) == Some(d.status)
    &&& d.target_role@ == r.target_role
    &&& opt_view(d.codex_session_id) == r.codex_session_id
}

proof fn lemma_unknown_state_stays(
    front: Seq<DispatchRow<Seq<char>>>,
    rest: Seq<DispatchRow<Seq<char>>>,
)
    requires
        unknown_state(front) is Some,
    ensures
        unknown_state(front + rest) == unknown_state(front),
    decreases rest.len(),
{
    if rest.len() == 0 {
        assert(front + rest =~= front);
    } else {
        lemma_unknown_state_stays(front, rest.drop_last());
        assert((front + rest).drop_last() =~= front + rest.drop_last());
    }
}

impl Ledger {
    /// The dispatches of the issue that have a session, the newest first: of every role, or of one.
    pub fn list_issue_resume_dispatches(
        &self,
        repo_full_name: &str,
        issue_number: u64,
        role: &Option<String>,
    ) -> (r: Result<Vec<IssueResumeDispatch>, String>)
        ensures
            issue_number > i64::MAX ==> (r matches Err(e) && e@
                == "out of range integral type conversion attempted"@),
            issue_number <= i64::MAX ==> ({
                let want = with_session(
                    self@.rows,
                    repo_full_name@,
                    issue_number as int,
                    opt_view(*role),
                );
                match (r, unknown_state(want)) {
                    (Ok(list), None) => {
                        &&& list@.len() == want.len()
                        &&& forall|k: int|
                            0 <= k < list@.len() ==> resumes(#[trigger] list@[k], want[k])
                    },
                    (Err(e), Some(word)) => e@ == "unknown dispatch status: "@ + word,
                    _ => false,
                }
            }),
    {
        if issue_number > 9_223_372_036_854_775_807 {
            return Err("out of range integral type conversion attempted".to_owned());
        }
        let issue: i64 = issue_number as i64;
        let mut out: Vec<IssueResumeDispatch> = Vec::new();
        let mut i: usize = self.rows.len();
        let ghost all = self@.rows;
        let ghost name = opt_view(*role);
        let ghost want = with_session(all, repo_full_name@, issue as int, name);
        let ghost mut done: Seq<DispatchRow<Seq<char>>> = Seq::empty();
        proof {
            assert(all.take(i as int) =~= all);
            assert(done + want =~= want);
        }
        while i > 0
            invariant
                i <= self.rows@.len(),
                all == self@.rows,
                issue == issue_number,
                issue_number <= i64::MAX,
                name == opt_view(*role),
                want == with_session(all, repo_full_name@, issue as int, name),
                want == done + with_session(all.take(i as int), repo_full_name@, issue as int, name),
                unknown_state(done) is None,
                out@.len() == done.len(),
                forall|k: int| 0 <= k < out@.len() ==> resumes(#[trigger] out@[k], done[k]),
            decreases i,
        {
            let row = &self.rows[i - 1];
            let ghost rest = with_session(all.take(i - 1), repo_full_name@, issue as int, name);
            proof {
                assert(all.take(i as int).last() == row_view(*row));
                assert(all.take(i as int).drop_last() =~= all.take(i - 1));
            }
            if row_has_session(row, repo_full_name, issue, role) {
                let ghost more = done.push(row_view(*row));
                proof {
                    assert(done + (seq![row_view(*row)] + rest) =~= more + rest);
                    assert(more.drop_last() =~= done);
                }
                match DispatchState::parse_db(row.status.as_str()) {
                    None => {
                        proof {
                            lemma_unknown_state_stays(more, rest);
                        }
                        return Err(cat2("unknown dispatch status: ", row.status.as_str()));
                    },
                    Some(status) => {
                        out.push(
                            IssueResumeDispatch {
                                id: row.id,
                                status,
                                target_role: row.target_role.clone(),
                                codex_session_id: clone_opt(&row.codex_session_id),
                            },
                        );
                    },
                }
                proof {
                    done = more;
                }
            }
            i = i - 1;
        }
        proof {
            assert(all.take(0) =~= Seq::empty());
            assert(done + Seq::<DispatchRow<Seq<char>>>::empty() =~= done);
        }
        Ok(out)
    }

    /// The session of the newest dispatch of the role on the issue that has one.
    pub fn latest_issue_role_codex_session_id(
        &self,
        repo_full_name: &str,
        issue_number: u64,
        role_name: &str,
    ) -> (r: Result<Option<String>, String>)
        ensures
            issue_number > i64::MAX ==> (r matches Err(e) && e@
                == "out of range integral type conversion attempted"@),
            issue_number <= i64::MAX ==> (r matches Ok(t) && opt_view(t) == ({
                let all = with_session(
                    self@.rows,
                    repo_full_name@,
                    issue_number as int,
                    Some(role_name@),
                );
                if all.len() == 0 {
                    None
                } else {
                    all[0].codex_session_id
                }
            })),
    {
        if issue_number > 9_223_372_036_854_775_807 {
            return Err("out of range integral type conversion attempted".to_owned());
        }
        let issue: i64 = issue_number as i64;
        let role = Some(role_name.to_owned());
        let mut i: usize = self.rows.len();
        let ghost all = self@.rows;
        proof {
            assert(all.take(i as int) =~= all);
        }
        while i > 0
            invariant
                i <= self.rows@.len(),
                all == self@.rows,
                issue == issue_number,
                issue_number <= i64::MAX,
                opt_view(role) == Some(role_name@),
                with_session(all, repo_full_name@, issue as int, Some(role_name@)) == with_session(
                    all.take(i as int),
                    repo_full_name@,
                    issue as int,
                    Some(role_name@),
                ),
            decreases i,
        {
            let row = &self.rows[i - 1];
            proof {
                assert(all.take(i as int).last() == row_view(*row));
                assert(all.take(i as int).drop_last() =~= all.take(i - 1));
            }
            if row_has_session(row, repo_full_name, issue, &role) {
                return Ok(clone_opt(&row.codex_session_id));
            }
            i = i - 1;
        }
        proof {
            assert(all.take(0) =~= Seq::empty());
        }
        Ok(None)
    }
}

/// The dispatch under way is the one of the ledger.
pub open spec fn shows(d: InflightDispatch, r: DispatchRow<Seq<char>>) -> bool {
    &&& d.id == r.id
    &&& d.repo_full_name@ == r.repo_full_name
    &&& d.issue_number == r.issue_number
    &&& DispatchState::of_word(r.status) == Some(d.status)
    &&& d.started_at@ == r.started_at
    &&& d.backend_kind == (match r.backend_kind {
        Some(k) => DispatchBackendKind::of_word(k),
        None => None,
    })
    &&& opt_view(d.backend_ref) == r.backend_ref
    &&& opt_view(d.lock_path) == r.lock_path
}

/// A dispatch of the ledger that is under way.
fn inflight_of(row: &DispatchRow<String>) -> (r: InflightDispatch)
    requires
        under_way(row_view(*row)),
        row.issue_number >= 0,
    ensures
        shows(r, row_view(*row)),
{
    let status = match DispatchState::parse_db(row.status.as_str()) {
        Some(s) => s,
        None => DispatchState::Starting,
    };
    let backend_kind = match &row.backend_kind {
        Some(k) => DispatchBackendKind::parse_db(k.as_str()),
        None => None,
    };
    InflightDispatch {
        id: row.id,
        repo_full_name: row.repo_full_name.clone(),
        issue_number: row.issue_number as u64,
        status,
        started_at: row.started_at.clone(),
        backend_kind,
        backend_ref: clone_opt(&row.backend_ref),
        lock_path: clone_opt(&row.lock_path),
    }
}

/// Where the newest dispatch of the issue that is under way stands, or -1.
pub open spec fn issue_place(
    rows: Seq<DispatchRow<Seq<char>>>,
    repo: Seq<char>,
    issue: int,
) -> int
    decreases rows.len(),
{
    if rows.len() == 0 {
        -1
    } else {
        let r = rows.last();
        if r.repo_full_name == repo && r.issue_number == issue && under_way(r) {
            rows.len() - 1
        } else {
            issue_place(rows.drop_last(), repo, issue)
        }
    }
}

/// The dispatches that are under way, oldest first.
pub open spec fn all_under_way(rows: Seq<DispatchRow<Seq<char>>>) -> Seq<DispatchRow<Seq<char>>>
    decreases rows.len(),
{
    if rows.len() == 0 {
        Seq::empty()
    } else if under_way(rows.last()) {
        all_under_way(rows.drop_last()).push(rows.last())
    } else {
        all_under_way(rows.drop_last())
    }
}

/// The number of the first issue that no issue can have.
pub open spec fn bad_issue(rows: Seq<DispatchRow<Seq<char>>>) -> Option<int>
    decreases rows.len(),
{
    if rows.len() == 0 {
        None
    } else {
        match bad_issue(rows.drop_last()) {
            Some(n) => Some(n),
            None => if rows.last().issue_number < 0 {
                Some(rows.last().issue_number as int)
            } else {
                None
            },
        }
    }
}

/// An issue number that none can have stays the first one, whatever follows.
proof fn lemma_bad_issue_stays(
    rows: Seq<DispatchRow<Seq<char>>>,
    i: int,
)
    requires
        0 <= i <= rows.len(),
        bad_issue(all_under_way(rows.take(i))) is Some,
    ensures
        bad_issue(all_under_way(rows)) == bad_issue(all_under_way(rows.take(i))),
    decreases rows.len() - i,
{
    if i < rows.len() {
        assert(rows.take(i + 1).drop_last() =~= rows.take(i));
        let tail = all_under_way(rows.take(i + 1));
        assert(under_way(rows[i]) ==> tail.drop_last() =~= all_under_way(rows.take(i)));
        lemma_bad_issue_stays(rows, i + 1);
    } else {
        assert(rows.take(i) =~= rows);
    }
}

impl Ledger {
    /// The newest dispatch of the issue that is under way.
    pub fn latest_issue_inflight_dispatch(&self, repo_full_name: &str, issue_number: u64) -> (r:
        Result<Option<InflightDispatch>, String>)
        ensures
            issue_number > i64::MAX ==> (r matches Err(e) && e@
                == "out of range integral type conversion attempted"@),
            issue_number <= i64::MAX ==> {
                let i = issue_place(self@.rows, repo_full_name@, issue_number as int);
                match r {
                    Ok(None) => i < 0,
                    Ok(Some(d)) => i >= 0 && shows(d, self@.rows[i]),
                    Err(_) => false,
                }
            },
    {
        if issue_number > 9_223_372_036_854_775_807 {
            return Err("out of range integral type conversion attempted".to_owned());
        }
        let issue: i64 = issue_number as i64;
        let mut i: usize = self.rows.len();
        let ghost all = self@.rows;
        proof {
            assert(all.take(i as int) =~= all);
        }
        while i > 0
            invariant
                i <= self.rows@.len(),
                all == self@.rows,
                issue == issue_number,
                issue_number <= i64::MAX,
                issue_place(all, repo_full_name@, issue as int) == issue_place(
                    all.take(i as int),
                    repo_full_name@,
                    issue as int,
                ),
            decreases i,
        {
            let row = &self.rows[i - 1];
            proof {
                assert(all.take(i as int).last() == row_view(*row));
                assert(all.take(i as int).drop_last() =~= all.take(i - 1));
            }
            if str_eq(row.repo_full_name.as_str(), repo_full_name) && row.issue_number == issue
                && is_under_way(row) {
                return Ok(Some(inflight_of(row)));
            }
            i = i - 1;
        }
        Ok(None)
    }

    /// The dispatches that are under way, oldest first.
    pub fn list_inflight_dispatches(&self) -> (r: Result<Vec<InflightDispatch>, String>)
        ensures
            match (r, bad_issue(all_under_way(self@.rows))) {
                (Ok(list), None) => {
                    let want = all_under_way(self@.rows);
                    &&& list@.len() == want.len()
                    &&& forall|k: int| 0 <= k < list@.len() ==> shows(#[trigger] list@[k], want[k])
                },
                (Err(e), Some(n)) => e@
                    == "Conversion error from type Integer at index: 2, invalid issue number in db: "@
                    + decimal_int(n),
                _ => false,
            },
    {
        let mut out: Vec<InflightDispatch> = Vec::new();
        let mut i: usize = 0;
        let ghost all = self@.rows;
        while i < self.rows.len()
            invariant
                i <= self.rows@.len(),
                all == self@.rows,
                bad_issue(all_under_way(all.take(i as int))) is None,
                out@.len() == all_under_way(all.take(i as int)).len(),
                forall|k: int|
                    0 <= k < out@.len() ==> shows(
                        #[trigger] out@[k],
                        all_under_way(all.take(i as int))[k],
                    ),
            decreases self.rows.len() - i,
        {
            let row = &self.rows[i];
            let ghost done = all_under_way(all.take(i as int));
            proof {
                assert(all.take(i + 1).last() == row_view(*row));
                assert(all.take(i + 1).drop_last() =~= all.take(i as int));
                assert(done.push(row_view(*row)).drop_last() =~= done);
            }
            if is_under_way(row) {
                if row.issue_number < 0 {
                    proof {
                        lemma_bad_issue_stays(all, i + 1);
                    }
                    let n = i64_text(row.issue_number);
                    return Err(
                        cat2(
                            "Conversion error from type Integer at index: 2, invalid issue number in db: ",
                            n.as_str(),
                        ),
                    );
                }
                out.push(inflight_of(row));
            }
            i = i + 1;
        }
        proof {
            assert(all.take(i as int) =~= all);
        }
        Ok(out)
    }
}

/// The place of a dispatch in a ledger in order is where its number stands.
pub proof fn lemma_place_is(rows: Seq<DispatchRow<Seq<char>>>, id: i64, k: int)
    requires
        0 <= k < rows.len(),
        rows[k].id == id,
        forall|i: int, j: int|
            0 <= i < j < rows.len() ==> (#[trigger] rows[i]).id < (#[trigger] rows[j]).id,
    ensures
        place_of(rows, id) == k,
    decreases rows.len(),
{
    if k < rows.len() - 1 {
        assert(rows[k].id < rows[rows.len() - 1].id);
        assert(rows.drop_last()[k] == rows[k]);
        lemma_place_is(rows.drop_last(), id, k);
    }
}

/// Each event leads to the state that it speaks of, and only from the states under way: a dispatch runs
/// or fails to start from its start alone, and no event brings one back to its start.
pub proof fn law_events_lead_where_they_say(s: DispatchState, event: DispatchEventKind)
    ensures
        next_state(s, event) is Some <==> (s == DispatchState::Starting && event
            != DispatchEventKind::MarkStarting) || (s == DispatchState::Running && event
            != DispatchEventKind::MarkStarting && event != DispatchEventKind::MarkRunning && event
            != DispatchEventKind::FailStart),
        next_state(s, event) matches Some(n) ==> {
            &&& n == DispatchState::Running <==> event == DispatchEventKind::MarkRunning
            &&& n == DispatchState::FailedStart <==> event == DispatchEventKind::FailStart
            &&& n == DispatchState::Completed <==> event == DispatchEventKind::Complete
            &&& n == DispatchState::TimedOut <==> event == DispatchEventKind::Timeout
            &&& n == DispatchState::Blocked <==> event == DispatchEventKind::Block
            &&& n == DispatchState::FailedRuntime <==> event == DispatchEventKind::FailRuntime
                || event == DispatchEventKind::HealStale
            &&& n != DispatchState::Starting
        },
{
}

/// The dispatch found under way is the newest one that is.
proof fn lemma_issue_under_way(rows: Seq<DispatchRow<Seq<char>>>, repo: Seq<char>, issue: int)
    ensures
        match issue_under_way(rows, repo, issue) {
            Some(id) => exists|k: int|
                0 <= k < rows.len() && (#[trigger] rows[k]).id == id && rows[k].repo_full_name == repo
                    && rows[k].issue_number == issue && under_way(rows[k]) && forall|j: int|
                    k < j < rows.len() ==> !((#[trigger] rows[j]).repo_full_name == repo
                        && rows[j].issue_number == issue && under_way(rows[j])),
            None => forall|j: int|
                0 <= j < rows.len() ==> !((#[trigger] rows[j]).repo_full_name == repo
                    && rows[j].issue_number == issue && under_way(rows[j])),
        },
    decreases rows.len(),
{
    if rows.len() > 0 {
        let t = rows.drop_last();
        let r = rows.last();
        if r.repo_full_name == repo && r.issue_number == issue && under_way(r) {
            assert(rows[rows.len() - 1].id == r.id);
        } else {
            lemma_issue_under_way(t, repo, issue);
            assert forall|j: int| 0 <= j < t.len() implies #[trigger] rows[j] == t[j] by {}
            if let Some(id) = issue_under_way(t, repo, issue) {
                let k = choose|k: int|
                    0 <= k < t.len() && (#[trigger] t[k]).id == id && t[k].repo_full_name == repo
                        && t[k].issue_number == issue && under_way(t[k]) && forall|j: int|
                        k < j < t.len() ==> !((#[trigger] t[j]).repo_full_name == repo
                            && t[j].issue_number == issue && under_way(t[j]));
                assert(rows[k] == t[k]);
                assert forall|j: int| k < j < rows.len() implies !((#[trigger] rows[j]).repo_full_name
                    == repo && rows[j].issue_number == issue && under_way(rows[j])) by {
                    if j < t.len() {
                        assert(rows[j] == t[j]);
                    }
                }
            }
        }
    }
}

/// The dispatch of the directive found under way is the newest one that is.
proof fn lemma_repo_under_way(
    rows: Seq<DispatchRow<Seq<char>>>,
    repo: Seq<char>,
    directive: Seq<char>,
)
    ensures
        match repo_under_way(rows, repo, directive) {
            Some(id) => exists|k: int|
                0 <= k < rows.len() && (#[trigger] rows[k]).id == id && rows[k].repo_full_name == repo
                    && rows[k].directive == directive && under_way(rows[k]) && forall|j: int|
                    k < j < rows.len() ==> !((#[trigger] rows[j]).repo_full_name == repo
                        && rows[j].directive == directive && under_way(rows[j])),
            None => forall|j: int|
                0 <= j < rows.len() ==> !((#[trigger] rows[j]).repo_full_name == repo
                    && rows[j].directive == directive && under_way(rows[j])),
        },
    decreases rows.len(),
{
    if rows.len() > 0 {
        let t = rows.drop_last();
        let r = rows.last();
        if r.repo_full_name == repo && r.directive == directive && under_way(r) {
            assert(rows[rows.len() - 1].id == r.id);
        } else {
            lemma_repo_under_way(t, repo, directive);
            assert forall|j: int| 0 <= j < t.len() implies #[trigger] rows[j] == t[j] by {}
            if let Some(id) = repo_under_way(t, repo, directive) {
                let k = choose|k: int|
                    0 <= k < t.len() && (#[trigger] t[k]).id == id && t[k].repo_full_name == repo
                        && t[k].directive == directive && under_way(t[k]) && forall|j: int|
                        k < j < t.len() ==> !((#[trigger] t[j]).repo_full_name == repo
                            && t[j].directive == directive && under_way(t[j]));
                assert(rows[k] == t[k]);
                assert forall|j: int| k < j < rows.len() implies !((#[trigger] rows[j]).repo_full_name
                    == repo && rows[j].directive == directive && under_way(rows[j])) by {
                    if j < t.len() {
                        assert(rows[j] == t[j]);
                    }
                }
            }
        }
    }
}

/// A dispatch is reserved exactly where none of its issue is starting or running, and, for one that
/// changes code, none that changes code in its repository either. Otherwise the newest such dispatch is
/// named, first that of the issue, and the ledger stays as it is.
pub proof fn law_reservations_wait_for_what_is_under_way(b: Book, insert: DispatchInsert, now: Seq<char>)
    requires
        insert.issue_number <= i64::MAX,
    ensures
        ({
            let (after, how) = reserved(b, insert, now);
            let of_issue = |r: DispatchRow<Seq<char>>|
                r.repo_full_name == insert.repo_full_name@ && r.issue_number == insert.issue_number && (
                r.status == "starting"@ || r.status == "running"@);
            let of_repo = |r: DispatchRow<Seq<char>>|
                insert.directive@ == "impl"@ && r.directive == "impl"@ && r.repo_full_name
                    == insert.repo_full_name@ && (r.status == "starting"@ || r.status == "running"@);
            &&& how is Started <==> forall|k: int|
                0 <= k < b.rows.len() ==> !of_issue(#[trigger] b.rows[k]) && !of_repo(b.rows[k])
            &&& how matches DispatchReservation::InFlightIssue(id) ==> after == b && exists|k: int|
                0 <= k < b.rows.len() && (#[trigger] b.rows[k]).id == id && of_issue(b.rows[k])
                    && forall|j: int| k < j < b.rows.len() ==> !of_issue(#[trigger] b.rows[j])
            &&& how matches DispatchReservation::InFlightRepo(id) ==> after == b && (exists|k: int|
                0 <= k < b.rows.len() && (#[trigger] b.rows[k]).id == id && of_repo(b.rows[k])
                    && forall|j: int| k < j < b.rows.len() ==> !of_repo(#[trigger] b.rows[j]))
                && forall|k: int| 0 <= k < b.rows.len() ==> !of_issue(#[trigger] b.rows[k])
        }),
{
    lemma_issue_under_way(b.rows, insert.repo_full_name@, insert.issue_number as int);
    lemma_repo_under_way(b.rows, insert.repo_full_name@, insert.directive@);
}

/// A reserved dispatch gets a number that none had, stands as starting with what it was reserved for, and
/// is entered as such; the dispatches before it stay as they are.
pub proof fn law_reserved_dispatches_are_entered(b: Book, insert: DispatchInsert, now: Seq<char>)
    requires
        b.wf(),
        b.last_id < i64::MAX,
        insert.issue_number <= i64::MAX,
    ensures
        reserved(b, insert, now).1 matches DispatchReservation::Started(id) ==> {
            let after = reserved(b, insert, now).0;
            let row = after.rows.last();
            &&& after.rows.drop_last() == b.rows
            &&& forall|k: int| 0 <= k < b.rows.len() ==> (#[trigger] b.rows[k]).id != id
            &&& row.id == id
            &&& row.status == "starting"@
            &&& row.decision_id == insert.decision_id
            &&& row.repo_full_name == insert.repo_full_name@
            &&& row.issue_number == insert.issue_number
            &&& row.directive == insert.directive@
            &&& row.target_role == insert.target_role@
            &&& row.actor_login == opt_view(insert.actor_login)
            &&& row.started_at == insert.started_at@
            &&& row.ended_at is None
            &&& row.codex_session_id is None
            &&& after.events.drop_last() == b.events
            &&& after.events.last().dispatch_id == id
            &&& after.events.last().to_state == "starting"@
            &&& after.events.last().from_state is None
            &&& after.last_id == id
        },
{
    let after = reserved(b, insert, now).0;
    if reserved(b, insert, now).1 is Started {
        assert(after.rows.drop_last() =~= b.rows);
        assert(after.events.drop_last() =~= b.events);
    }
}

/// The ledger differs in one row, and the change is entered with the states before and after it.
pub open spec fn one_row_changed(b: Book, after: Book, k: int, event: DispatchEventKind) -> bool {
    &&& after.rows.len() == b.rows.len()
    &&& forall|j: int| 0 <= j < b.rows.len() && j != k ==> #[trigger] after.rows[j] == b.rows[j]
    &&& after.rows[k].id == b.rows[k].id
    &&& after.rows[k].decision_id == b.rows[k].decision_id
    &&& after.rows[k].repo_full_name == b.rows[k].repo_full_name
    &&& after.rows[k].issue_number == b.rows[k].issue_number
    &&& after.rows[k].directive == b.rows[k].directive
    &&& after.rows[k].target_role == b.rows[k].target_role
    &&& after.rows[k].started_at == b.rows[k].started_at
    &&& after.last_id == b.last_id
    &&& after.events.len() == b.events.len() + 1
    &&& after.events.drop_last() == b.events
    &&& after.events.last().dispatch_id == b.rows[k].id
    &&& after.events.last().event_kind == event
    &&& after.events.last().from_state == Some(b.rows[k].status)
    &&& after.events.last().to_state == after.rows[k].status
}

/// A launch takes a starting dispatch, and no other, to running, with what it runs in.
pub proof fn law_launched_dispatches_run(
    b: Book,
    k: int,
    backend: (Seq<char>, Seq<char>),
    run_dir: Seq<char>,
    lock_path: Seq<char>,
    now: Seq<char>,
)
    requires
        b.wf(),
        0 <= k < b.rows.len(),
    ensures
        launched(b, b.rows[k].id, backend, run_dir, lock_path, now) is Ok <==> b.rows[k].status
            == "starting"@,
        launched(b, b.rows[k].id, backend, run_dir, lock_path, now) matches Ok(after) ==> {
            &&& one_row_changed(b, after, k, DispatchEventKind::MarkRunning)
            &&& after.rows[k].status == "running"@
            &&& after.rows[k].backend_kind == Some(backend.0)
            &&& after.rows[k].backend_ref == Some(backend.1)
            &&& after.rows[k].run_dir == Some(run_dir)
            &&& after.rows[k].lock_path == Some(lock_path)
            &&& after.rows[k].ended_at == b.rows[k].ended_at
        },
{
    lemma_place_is(b.rows, b.rows[k].id, k);
    lemma_known_words(b.rows[k].status);
    if let Ok(after) = launched(b, b.rows[k].id, backend, run_dir, lock_path, now) {
        assert(after.events.drop_last() =~= b.events);
    }
}

/// A failure to start takes a starting dispatch, and no other, to its end.
pub proof fn law_failed_starts_end(
    b: Book,
    k: int,
    reason: Seq<char>,
    error: Seq<char>,
    now: Seq<char>,
)
    requires
        b.wf(),
        0 <= k < b.rows.len(),
    ensures
        start_failed(b, b.rows[k].id, reason, error, now) is Ok <==> b.rows[k].status == "starting"@,
        start_failed(b, b.rows[k].id, reason, error, now) matches Ok(after) ==> {
            &&& one_row_changed(b, after, k, DispatchEventKind::FailStart)
            &&& after.rows[k].status == "failed_start"@
            &&& after.rows[k].reason_code == Some(reason)
            &&& after.rows[k].error_text == Some(error)
            &&& after.rows[k].ended_at == Some(now)
        },
{
    lemma_place_is(b.rows, b.rows[k].id, k);
    lemma_known_words(b.rows[k].status);
    if let Ok(after) = start_failed(b, b.rows[k].id, reason, error, now) {
        assert(after.events.drop_last() =~= b.events);
    }
}

/// A failure while it runs takes a dispatch under way, and no other, to its end; the healing of a stale
/// one is entered as such.
pub proof fn law_failed_runs_end(
    b: Book,
    k: int,
    reason: Seq<char>,
    error: Seq<char>,
    now: Seq<char>,
)
    requires
        b.wf(),
        0 <= k < b.rows.len(),
    ensures
        runtime_failed(b, b.rows[k].id, reason, error, now) is Ok <==> b.rows[k].status == "starting"@
            || b.rows[k].status == "running"@,
        runtime_failed(b, b.rows[k].id, reason, error, now) matches Ok(after) ==> {
            &&& one_row_changed(
                b,
                after,
                k,
                if reason == "stale_dispatch_autohealed"@ {
                    DispatchEventKind::HealStale
                } else {
                    DispatchEventKind::FailRuntime
                },
            )
            &&& after.rows[k].status == "failed_runtime"@
            &&& after.rows[k].reason_code == Some(reason)
            &&& after.rows[k].error_text == Some(error)
            &&& after.rows[k].ended_at == Some(now)
        },
{
    lemma_place_is(b.rows, b.rows[k].id, k);
    lemma_known_words(b.rows[k].status);
    if let Ok(after) = runtime_failed(b, b.rows[k].id, reason, error, now) {
        assert(after.events.drop_last() =~= b.events);
    }
}

/// The states that a word can name.
proof fn lemma_known_words(word: Seq<char>)
    ensures
        DispatchState::of_word(word) == Some(DispatchState::Starting) <==> word == "starting"@,
        DispatchState::of_word(word) == Some(DispatchState::Running) <==> word == "running"@,
{
    law_dispatch_states_read_back(DispatchState::Starting, word);
    law_dispatch_states_read_back(DispatchState::Running, word);
}

/// An end is entered for a dispatch under way, and for no other: the ledger stays as it is for one that
/// ended before or that there is not.
pub proof fn law_ends_are_entered(b: Book, k: int, end: DispatchEnd<Seq<char>>, now: Seq<char>)
    requires
        b.wf(),
        0 <= k < b.rows.len(),
    ensures
        ended(b, b.rows[k].id, end, now) matches Ok(r) ==> {
            &&& r.1 ==> b.rows[k].status == "starting"@ || b.rows[k].status == "running"@
            &&& !r.1 ==> r.0 == b && b.rows[k].status != "starting"@ && b.rows[k].status != "running"@
            &&& r.1 ==> {
                &&& one_row_changed(b, r.0, k, end.event_kind)
                &&& end.event_kind == DispatchEventKind::Complete ==> r.0.rows[k].status
                    == "completed"@
                &&& end.event_kind == DispatchEventKind::Timeout ==> r.0.rows[k].status
                    == "timed_out"@
                &&& end.event_kind == DispatchEventKind::Block ==> r.0.rows[k].status == "blocked"@
                &&& end.event_kind == DispatchEventKind::FailRuntime ==> r.0.rows[k].status
                    == "failed_runtime"@
                &&& r.0.rows[k].reason_code == Some(end.reason_code)
                &&& r.0.rows[k].exit_code == Some(end.exit_code)
                &&& r.0.rows[k].ended_at == Some(now)
                &&& r.0.rows[k].codex_session_id == (match end.session_id {
                    Some(t) => if trim(t).len() == 0 {
                        None
                    } else {
                        Some(t)
                    },
                    None => None,
                })
            }
        },
        (b.rows[k].status == "starting"@ || b.rows[k].status == "running"@) && (end.event_kind
            == DispatchEventKind::Complete || end.event_kind == DispatchEventKind::Timeout
            || end.event_kind == DispatchEventKind::Block || end.event_kind
            == DispatchEventKind::FailRuntime) ==> (ended(b, b.rows[k].id, end, now) matches Ok(r)
            && r.1),
{
    lemma_place_is(b.rows, b.rows[k].id, k);
    lemma_known_words(b.rows[k].status);
    if let Ok(r) = ended(b, b.rows[k].id, end, now) {
        if r.1 {
            assert(r.0.events.drop_last() =~= b.events);
        }
    }
}

/// The session of an issue is that of its newest dispatch with one.
pub proof fn law_the_newest_session_is_taken(
    rows: Seq<DispatchRow<Seq<char>>>,
    repo: Seq<char>,
    issue: int,
)
    ensures
        match issue_session(rows, repo, issue) {
            Some(t) => exists|k: int|
                0 <= k < rows.len() && (#[trigger] rows[k]).codex_session_id == Some(t) && t.len() > 0
                    && rows[k].repo_full_name == repo && rows[k].issue_number == issue && forall|
                    j: int,
                |
                    k < j < rows.len() && (#[trigger] rows[j]).repo_full_name == repo
                        && rows[j].issue_number == issue ==> (rows[j].codex_session_id matches Some(u)
                        ==> u.len() == 0),
            None => forall|j: int|
                0 <= j < rows.len() && (#[trigger] rows[j]).repo_full_name == repo
                    && rows[j].issue_number == issue ==> (rows[j].codex_session_id matches Some(u)
                    ==> u.len() == 0),
        },
    decreases rows.len(),
{
    if rows.len() > 0 {
        let t = rows.drop_last();
        let r = rows.last();
        law_the_newest_session_is_taken(t, repo, issue);
        assert forall|j: int| 0 <= j < t.len() implies #[trigger] rows[j] == t[j] by {}
        if r.codex_session_id is Some && r.codex_session_id->0.len() > 0 && r.repo_full_name == repo
            && r.issue_number == issue {
            assert(rows[rows.len() - 1] == r);
        } else if let Some(x) = issue_session(t, repo, issue) {
            let k = choose|k: int|
                0 <= k < t.len() && (#[trigger] t[k]).codex_session_id == Some(x) && t[k].repo_full_name
                    == repo && t[k].issue_number == issue && forall|j: int|
                    k < j < t.len() && (#[trigger] t[j]).repo_full_name == repo && t[j].issue_number
                        == issue ==> (t[j].codex_session_id matches Some(u) ==> u.len() == 0);
            assert(rows[k] == t[k]);
            assert forall|j: int|
                k < j < rows.len() && (#[trigger] rows[j]).repo_full_name == repo
                    && rows[j].issue_number == issue implies (rows[j].codex_session_id matches Some(u)
                ==> u.len() == 0) by {
                if j < t.len() {
                    assert(rows[j] == t[j]);
                }
            }
        }
    }
}

/// The dispatches of an issue with a session are all there, of the role that was asked for where one was,
/// the newest first.
pub proof fn law_sessions_come_newest_first(
    b: Book,
    repo: Seq<char>,
    issue: int,
    role: Option<Seq<char>>,
)
    requires
        b.wf(),
    ensures
        forall|i: int, j: int|
            0 <= i < j < with_session(b.rows, repo, issue, role).len() ==> (
            #[trigger] with_session(b.rows, repo, issue, role)[i]).id > (#[trigger] with_session(
                b.rows,
                repo,
                issue,
                role,
            )[j]).id,
        forall|x: DispatchRow<Seq<char>>| #[trigger]
            with_session(b.rows, repo, issue, role).contains(x) <==> b.rows.contains(x)
                && x.repo_full_name == repo && x.issue_number == issue && (role matches Some(name)
                ==> x.target_role == name) && (x.codex_session_id matches Some(t) && t.len() > 0),
    decreases b.rows.len(),
{
    let rows = b.rows;
    if rows.len() > 0 {
        let t = rows.drop_last();
        let less = Book { rows: t, ..b };
        assert forall|i: int, j: int| 0 <= i < j < t.len() implies (#[trigger] t[i]).id < (
        #[trigger] t[j]).id by {
            assert(rows[i].id < rows[j].id);
        }
        assert forall|i: int| 0 <= i < t.len() implies 0 < (#[trigger] t[i]).id <= b.last_id by {
            assert(rows[i] == t[i]);
        }
        law_sessions_come_newest_first(less, repo, issue, role);
        let rest = with_session(t, repo, issue, role);
        let all = with_session(rows, repo, issue, role);
        let r = rows.last();
        assert forall|x: DispatchRow<Seq<char>>| rest.contains(x) implies (#[trigger] x.id) < r.id by {
            assert(t.contains(x));
            let k = choose|k: int| 0 <= k < t.len() && t[k] == x;
            assert(rows[k].id < rows[rows.len() - 1].id);
        }
        assert forall|x: DispatchRow<Seq<char>>| #[trigger] rows.contains(x) <==> t.contains(x) || x
            == r by {
            if rows.contains(x) {
                let k = choose|k: int| 0 <= k < rows.len() && rows[k] == x;
                if k < t.len() {
                    assert(t[k] == x);
                }
            }
            if t.contains(x) {
                let k = choose|k: int| 0 <= k < t.len() && t[k] == x;
                assert(rows[k] == x);
            }
            assert(rows[rows.len() - 1] == r);
        }
        if has_session(r, repo, issue, role) {
            assert(all == seq![r] + rest);
            assert forall|i: int, j: int| 0 <= i < j < all.len() implies (#[trigger] all[i]).id > (
            #[trigger] all[j]).id by {
                assert(all[j] == rest[j - 1]);
                assert(rest.contains(rest[j - 1]));
                if i > 0 {
                    assert(all[i] == rest[i - 1]);
                }
            }
            assert forall|x: DispatchRow<Seq<char>>| #[trigger] all.contains(x) <==> rest.contains(x)
                || x == r by {
                if all.contains(x) {
                    let k = choose|k: int| 0 <= k < all.len() && all[k] == x;
                    if k > 0 {
                        assert(rest[k - 1] == x);
                    }
                }
                if rest.contains(x) {
                    let k = choose|k: int| 0 <= k < rest.len() && rest[k] == x;
                    assert(all[k + 1] == x);
                }
                assert(all[0] == r);
            }
        }
    }
}

/// The dispatches under way are those that are starting or running, oldest first.
pub proof fn law_all_under_way_are_listed(b: Book)
    requires
        b.wf(),
    ensures
        forall|i: int, j: int|
            0 <= i < j < all_under_way(b.rows).len() ==> (#[trigger] all_under_way(b.rows)[i]).id < (
            #[trigger] all_under_way(b.rows)[j]).id,
        forall|x: DispatchRow<Seq<char>>| #[trigger]
            all_under_way(b.rows).contains(x) <==> b.rows.contains(x) && (x.status == "starting"@
                || x.status == "running"@),
    decreases b.rows.len(),
{
    let rows = b.rows;
    if rows.len() > 0 {
        let t = rows.drop_last();
        let less = Book { rows: t, ..b };
        assert forall|i: int, j: int| 0 <= i < j < t.len() implies (#[trigger] t[i]).id < (
        #[trigger] t[j]).id by {
            assert(rows[i].id < rows[j].id);
        }
        assert forall|i: int| 0 <= i < t.len() implies 0 < (#[trigger] t[i]).id <= b.last_id by {
            assert(rows[i] == t[i]);
        }
        law_all_under_way_are_listed(less);
        let rest = all_under_way(t);
        let all = all_under_way(rows);
        let r = rows.last();
        assert forall|x: DispatchRow<Seq<char>>| rest.contains(x) implies (#[trigger] x.id) < r.id by {
            assert(t.contains(x));
            let k = choose|k: int| 0 <= k < t.len() && t[k] == x;
            assert(rows[k].id < rows[rows.len() - 1].id);
        }
        assert forall|x: DispatchRow<Seq<char>>| #[trigger] rows.contains(x) <==> t.contains(x) || x
            == r by {
            if rows.contains(x) {
                let k = choose|k: int| 0 <= k < rows.len() && rows[k] == x;
                if k < t.len() {
                    assert(t[k] == x);
                }
            }
            if t.contains(x) {
                let k = choose|k: int| 0 <= k < t.len() && t[k] == x;
                assert(rows[k] == x);
            }
            assert(rows[rows.len() - 1] == r);
        }
        if under_way(r) {
            assert(all == rest.push(r));
            assert forall|i: int, j: int| 0 <= i < j < all.len() implies (#[trigger] all[i]).id < (
            #[trigger] all[j]).id by {
                assert(all[i] == rest[i]);
                assert(rest.contains(rest[i]));
                if j < rest.len() {
                    assert(all[j] == rest[j]);
                }
            }
            assert forall|x: DispatchRow<Seq<char>>| #[trigger] all.contains(x) <==> rest.contains(x)
                || x == r by {
                if all.contains(x) {
                    let k = choose|k: int| 0 <= k < all.len() && all[k] == x;
                    if k < rest.len() {
                        assert(rest[k] == x);
                    }
                }
                if rest.contains(x) {
                    let k = choose|k: int| 0 <= k < rest.len() && rest[k] == x;
                    assert(all[k] == x);
                }
                assert(all[rest.len() as int] == r);
            }
        }
    }
}

/// Where the dispatch of an issue under way stands is where the newest such one does.
pub proof fn law_the_newest_under_way_is_shown(
    rows: Seq<DispatchRow<Seq<char>>>,
    repo: Seq<char>,
    issue: int,
)
    ensures
        ({
            let i = issue_place(rows, repo, issue);
            &&& -1 <= i < rows.len()
            &&& i >= 0 ==> rows[i].repo_full_name == repo && rows[i].issue_number == issue && (
            rows[i].status == "starting"@ || rows[i].status == "running"@)
            &&& forall|j: int|
                i < j < rows.len() ==> !((#[trigger] rows[j]).repo_full_name == repo
                    && rows[j].issue_number == issue && (rows[j].status == "starting"@
                    || rows[j].status == "running"@))
        }),
    decreases rows.len(),
{
    if rows.len() > 0 {
        let t = rows.drop_last();
        law_the_newest_under_way_is_shown(t, repo, issue);
        assert forall|j: int| 0 <= j < t.len() implies #[trigger] rows[j] == t[j] by {}
    }
}

/// A dispatch that is under way is shown as its row says.
pub proof fn law_rows_are_shown_as_they_are(d: InflightDispatch, r: DispatchRow<Seq<char>>)
    requires
        shows(d, r),
    ensures
        d.id == r.id,
        d.repo_full_name@ == r.repo_full_name,
        d.issue_number == r.issue_number,
        r.status == d.status.word(),
        d.started_at@ == r.started_at,
        opt_view(d.backend_ref) == r.backend_ref,
        opt_view(d.lock_path) == r.lock_path,
        r.backend_kind == Some("systemd"@) ==> d.backend_kind == Some(DispatchBackendKind::Systemd),
        r.backend_kind is None ==> d.backend_kind is None,
{
    crate::types::law_dispatch_states_read_back(d.status, r.status);
}

} // verus!
