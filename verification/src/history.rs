//! What the store knows of an issue: what was said since a dispatch last read it, and the decisions that
//! wait for a dispatch.

use crate::cli::PromptMode;
use crate::text::{
    blank, cat2, cat3, clone_opt, first_chars, join, opt_is, opt_view, replace_char, str_blank,
    str_eq, str_first_chars, str_join, str_replace_char, str_trim, trim, views,
};
use vstd::prelude::*;
use vstd::string::*;

verus! {

/// How many events a summary covers at most.
pub const DELTA_ROW_LIMIT: usize = 200;

/// How many characters of an event a summary shows at most.
pub const DELTA_TEXT_LIMIT: usize = 220;

/// An event of an issue, as a summary shows it.
#[verifier::ext_equal]
pub struct DeltaRow<S> {
    pub event_type: S,
    pub actor_login: Option<S>,
    pub event_text: Option<S>,
    pub received_at: S,
    pub source_created_at: Option<S>,
}

/// An event of an issue, as a summary shows it, at run time.
pub type IssueEventDeltaRow = DeltaRow<String>;

/// An event of an issue over the characters of its texts.
pub open spec fn delta_view(r: IssueEventDeltaRow) -> DeltaRow<Seq<char>> {
    DeltaRow {
        event_type: r.event_type@,
        actor_login: opt_view(r.actor_login),
        event_text: opt_view(r.event_text),
        received_at: r.received_at@,
        source_created_at: opt_view(r.source_created_at),
    }
}

/// Events of an issue over the characters of their texts.
pub open spec fn delta_views(rows: Seq<IssueEventDeltaRow>) -> Seq<DeltaRow<Seq<char>>> {
    rows.map_values(|r: IssueEventDeltaRow| delta_view(r))
}

/// The text, where it is there and not blank.
pub open spec fn said_or(t: Option<Seq<char>>, other: Seq<char>) -> Seq<char> {
    match t {
        Some(s) if !blank(s) => s,
        _ => other,
    }
}

/// The text of an event on one line, cut short.
pub open spec fn short_text(t: Option<Seq<char>>) -> Seq<char> {
    let line = trim(replace_char(match t {
        Some(s) => s,
        None => ""@,
    }, '\n', " "@));
    if line.len() > DELTA_TEXT_LIMIT {
        first_chars(line, DELTA_TEXT_LIMIT as nat) + "..."@
    } else {
        line
    }
}

/// The line that a summary has for an event.
pub open spec fn delta_line(r: DeltaRow<Seq<char>>) -> Seq<char> {
    "- ["@ + said_or(r.source_created_at, r.received_at) + "] "@ + said_or(
        r.actor_login,
        "unknown"@,
    ) + " "@ + r.event_type + ": "@ + short_text(r.event_text)
}

/// The lines that a summary has for events.
pub open spec fn delta_lines(rows: Seq<DeltaRow<Seq<char>>>) -> Seq<Seq<char>> {
    rows.map_values(|r: DeltaRow<Seq<char>>| delta_line(r))
}

/// The text, where it is there and not blank.
fn text_or<'a>(t: &'a Option<String>, other: &'a str) -> (r: &'a str)
    ensures
        r@ == said_or(opt_view(*t), other@),
{
    match t {
        Some(s) => if str_blank(s.as_str()) {
            other
        } else {
            s.as_str()
        },
        None => other,
    }
}

/// The line that a summary has for an event.
fn summary_line(row: &IssueEventDeltaRow) -> (r: String)
    ensures
        r@ == delta_line(delta_view(*row)),
{
    let raw = match &row.event_text {
        Some(s) => s.as_str(),
        None => "",
    };
    let flat = str_replace_char(raw, '\n', " ");
    let line = str_trim(flat.as_str());
    let len: usize = line.unicode_len();
    let mut out = cat3("- [", text_or(&row.source_created_at, row.received_at.as_str()), "] ");
    out.append(text_or(&row.actor_login, "unknown"));
    out.append(" ");
    out.append(row.event_type.as_str());
    out.append(": ");
    if len > DELTA_TEXT_LIMIT {
        let head = str_first_chars(line, DELTA_TEXT_LIMIT);
        let short = cat2(head.as_str(), "...");
        out.append(short.as_str());
    } else {
        out.append(line);
    }
    out
}

/// What was said on an issue: a line for each event.
pub open spec fn delta_text(rows: Seq<IssueEventDeltaRow>) -> Seq<char> {
    if rows.len() == 0 {
        "(no new issue events since last handled dispatch)"@
    } else {
        join(delta_lines(delta_views(rows)), "\n"@)
    }
}

/// What was said on an issue: a line for each event.
pub fn summarize_issue_delta(rows: &Vec<IssueEventDeltaRow>) -> (r: String)
    ensures
        r@ == delta_text(rows@),
{
    if rows.len() == 0 {
        return "(no new issue events since last handled dispatch)".to_owned();
    }
    let mut out: Vec<String> = Vec::new();
    let mut i: usize = 0;
    while i < rows.len()
        invariant
            i <= rows@.len(),
            out@.len() == i,
            forall|k: int|
                0 <= k < i ==> (#[trigger] out@[k])@ == delta_line(delta_view(rows@[k])),
        decreases rows.len() - i,
    {
        let line = summary_line(&rows[i]);
        out.push(line);
        i = i + 1;
    }
    proof {
        assert(views(out@) =~= delta_lines(delta_views(rows@)));
    }
    str_join(&out, "\n")
}

/// What a session is told of the events of its issue: a fresh one their history, which is given, and one that
/// goes on what is new in them.
pub fn issue_activity(mode: PromptMode, rows: &Vec<IssueEventDeltaRow>, history: &str) -> (r: String)
    ensures
        r@ == (match mode {
            PromptMode::Fresh => history@,
            PromptMode::Followup => delta_text(rows@),
        }),
{
    match mode {
        PromptMode::Fresh => history.to_owned(),
        PromptMode::Followup => summarize_issue_delta(rows),
    }
}

/// The history of an issue: a line for each event, and nothing where there is none.
pub fn issue_history(rows: &Vec<IssueEventDeltaRow>) -> (r: String)
    ensures
        r@ == (if rows@.len() == 0 {
            Seq::empty()
        } else {
            delta_text(rows@)
        }),
{
    if rows.len() == 0 {
        return String::new();
    }
    summarize_issue_delta(rows)
}

/// An event as the store keeps it.
pub struct StoredEvent {
    pub id: i64,
    pub repo_full_name: String,
    pub issue_number: Option<i64>,
    pub row: IssueEventDeltaRow,
}

/// The event says something on the issue, after the one event and not after the other.
pub open spec fn tells(e: StoredEvent, repo: Seq<char>, issue: int, after: int, up_to: int) -> bool {
    let r = delta_view(e.row);
    &&& e.repo_full_name@ == repo
    &&& e.issue_number == Some(issue as i64)
    &&& after < e.id <= up_to
    &&& r.event_type == "issue_comment"@ || r.event_type == "issues"@
    &&& r.event_text matches Some(t) && t.len() > 0
}

/// What was said on the issue, after the one event and not after the other, in the order of the events;
/// no more than the limit.
pub open spec fn delta(
    events: Seq<StoredEvent>,
    repo: Seq<char>,
    issue: int,
    after: int,
    up_to: int,
    limit: nat,
) -> Seq<DeltaRow<Seq<char>>>
    decreases events.len(),
{
    if events.len() == 0 {
        Seq::empty()
    } else {
        let before = delta(events.drop_last(), repo, issue, after, up_to, limit);
        if tells(events.last(), repo, issue, after, up_to) && before.len() < limit {
            before.push(delta_view(events.last().row))
        } else {
            before
        }
    }
}

/// A copy of an event of an issue.
fn copy_row(r: &IssueEventDeltaRow) -> (c: IssueEventDeltaRow)
    ensures
        delta_view(c) == delta_view(*r),
{
    DeltaRow {
        event_type: r.event_type.clone(),
        actor_login: clone_opt(&r.actor_login),
        event_text: clone_opt(&r.event_text),
        received_at: r.received_at.clone(),
        source_created_at: clone_opt(&r.source_created_at),
    }
}

/// What was said on the issue since the one event, up to the other: the first of it where it is more than
/// the limit.
pub fn limited_delta_rows(
    events: &Vec<StoredEvent>,
    repo_full_name: &str,
    issue_number: u64,
    after_event_id: Option<i64>,
    up_to_event_id: i64,
    limit: usize,
) -> (r: Result<Vec<IssueEventDeltaRow>, String>)
    ensures
        issue_number > i64::MAX ==> (r matches Err(e) && e@
            == "out of range integral type conversion attempted"@),
        issue_number <= i64::MAX ==> (r matches Ok(rows) && delta_views(rows@) == delta(
            events@,
            repo_full_name@,
            issue_number as int,
            match after_event_id {
                Some(n) => n as int,
                None => 0,
            },
            up_to_event_id as int,
            limit as nat,
        )),
{
    if issue_number > 9_223_372_036_854_775_807 {
        return Err("out of range integral type conversion attempted".to_owned());
    }
    let issue: i64 = issue_number as i64;
    let after: i64 = match after_event_id {
        Some(n) => n,
        None => 0,
    };
    let mut out: Vec<IssueEventDeltaRow> = Vec::new();
    let mut i: usize = 0;
    proof {
        assert(delta_views(out@) =~= Seq::empty());
    }
    while i < events.len()
        invariant
            i <= events@.len(),
            issue == issue_number,
            delta_views(out@) == delta(
                events@.take(i as int),
                repo_full_name@,
                issue as int,
                after as int,
                up_to_event_id as int,
                limit as nat,
            ),
        decreases events.len() - i,
    {
        let e = &events[i];
        proof {
            assert(events@.take(i + 1).last() == *e);
            assert(events@.take(i + 1).drop_last() =~= events@.take(i as int));
        }
        let ours = match e.issue_number {
            Some(n) => n == issue,
            None => false,
        };
        let kind = str_eq(e.row.event_type.as_str(), "issue_comment") || str_eq(
            e.row.event_type.as_str(),
            "issues",
        );
        let said = match &e.row.event_text {
            Some(t) => !t.as_str().is_empty(),
            None => false,
        };
        if ours && kind && said && str_eq(e.repo_full_name.as_str(), repo_full_name) && after < e.id
            && e.id <= up_to_event_id && out.len() < limit {
            let ghost before = out@;
            let row = copy_row(&e.row);
            out.push(row);
            proof {
                assert(delta_views(out@) =~= delta_views(before).push(delta_view(e.row)));
            }
        }
        i = i + 1;
    }
    proof {
        assert(events@.take(i as int) =~= events@);
    }
    Ok(out)
}

/// What was said on the issue since the one event, up to the other: the first of it where it is much.
pub fn issue_delta_rows(
    events: &Vec<StoredEvent>,
    repo_full_name: &str,
    issue_number: u64,
    after_event_id: Option<i64>,
    up_to_event_id: i64,
) -> (r: Result<Vec<IssueEventDeltaRow>, String>)
    ensures
        issue_number > i64::MAX ==> (r matches Err(e) && e@
            == "out of range integral type conversion attempted"@),
        issue_number <= i64::MAX ==> (r matches Ok(rows) && delta_views(rows@) == delta(
            events@,
            repo_full_name@,
            issue_number as int,
            match after_event_id {
                Some(n) => n as int,
                None => 0,
            },
            up_to_event_id as int,
            DELTA_ROW_LIMIT as nat,
        )),
{
    limited_delta_rows(
        events,
        repo_full_name,
        issue_number,
        after_event_id,
        up_to_event_id,
        DELTA_ROW_LIMIT,
    )
}

/// A decision as the store keeps it.
pub struct StoredDecision {
    pub id: i64,
    pub event_id: i64,
    pub repo_full_name: String,
    pub issue_number: Option<i64>,
    pub directive: Option<String>,
    pub target_role: Option<String>,
    pub would_dispatch: bool,
}

/// The decision asks for an implementation of an issue by a role.
pub open spec fn asks_for_impl(d: StoredDecision) -> bool {
    &&& d.would_dispatch
    &&& opt_view(d.directive) == Some("impl"@)
    &&& d.issue_number is Some
    &&& d.target_role is Some
}

/// The two decisions speak of one issue and one role.
pub open spec fn same_matter(a: StoredDecision, b: StoredDecision) -> bool {
    &&& a.repo_full_name@ == b.repo_full_name@
    &&& a.issue_number == b.issue_number
    &&& opt_view(a.target_role) == opt_view(b.target_role)
}

/// The decision waits: it asks for an implementation, no later one does in the same matter, its event is
/// known, and no dispatch was reserved for it. The later of two decisions has the greater number.
pub open spec fn waits(all: Seq<StoredDecision>, d: StoredDecision, known: Seq<i64>, dispatched: Seq<
    i64,
>) -> bool {
    &&& asks_for_impl(d)
    &&& forall|j: int|
        0 <= j < all.len() && asks_for_impl(#[trigger] all[j]) && same_matter(d, all[j])
            ==> all[j].id <= d.id
    &&& known.contains(d.event_id)
    &&& !dispatched.contains(d.id)
}

/// How many of the decisions come before the one of the number, in a list that has them in order.
pub open spec fn place(q: Seq<(i64, i64)>, id: i64) -> nat
    decreases q.len(),
{
    if q.len() == 0 || q.last().0 <= id {
        q.len()
    } else {
        place(q.drop_last(), id)
    }
}

/// The decisions that wait, of the first `n`, each with its event and the earliest first.
pub open spec fn waiting(all: Seq<StoredDecision>, n: nat, known: Seq<i64>, dispatched: Seq<i64>) -> Seq<
    (i64, i64),
>
    decreases n,
{
    if n == 0 {
        Seq::empty()
    } else {
        let d = all[n - 1];
        let before = waiting(all, (n - 1) as nat, known, dispatched);
        if waits(all, d, known, dispatched) {
            before.insert(place(before, d.id) as int, (d.id, d.event_id))
        } else {
            before
        }
    }
}

/// The decisions that one pass takes up: the earliest of those that wait, at most so many.
pub open spec fn queue(all: Seq<StoredDecision>, known: Seq<i64>, dispatched: Seq<i64>, limit: nat) -> Seq<
    (i64, i64),
> {
    let q = waiting(all, all.len(), known, dispatched);
    if q.len() > limit {
        q.take(limit as int)
    } else {
        q
    }
}

/// Tells whether a decision asks for an implementation of an issue by a role.
fn is_impl_request(d: &StoredDecision) -> (r: bool)
    ensures
        r == asks_for_impl(*d),
{
    d.would_dispatch && opt_is(&d.directive, "impl") && d.issue_number.is_some()
        && d.target_role.is_some()
}

/// Tells whether two decisions speak of one issue and one role.
fn is_same_matter(a: &StoredDecision, b: &StoredDecision) -> (r: bool)
    requires
        a.target_role is Some,
    ensures
        r == same_matter(*a, *b),
{
    let role = match &a.target_role {
        Some(t) => t.as_str(),
        None => "",
    };
    let number = match (a.issue_number, b.issue_number) {
        (Some(m), Some(n)) => m == n,
        (None, None) => true,
        _ => false,
    };
    str_eq(a.repo_full_name.as_str(), b.repo_full_name.as_str()) && number && opt_is(
        &b.target_role,
        role,
    )
}

/// Tells whether a number is in a list.
fn has_number(list: &Vec<i64>, n: i64) -> (r: bool)
    ensures
        r == list@.contains(n),
{
    let mut i: usize = 0;
    while i < list.len()
        invariant
            i <= list@.len(),
            forall|k: int| 0 <= k < i ==> (#[trigger] list@[k]) != n,
        decreases list.len() - i,
    {
        if list[i] == n {
            return true;
        }
        i = i + 1;
    }
    false
}

/// Tells whether a decision waits.
fn is_waiting(
    all: &Vec<StoredDecision>,
    d: &StoredDecision,
    known: &Vec<i64>,
    dispatched: &Vec<i64>,
) -> (r: bool)
    ensures
        r == waits(all@, *d, known@, dispatched@),
{
    if !is_impl_request(d) {
        return false;
    }
    let mut j: usize = 0;
    while j < all.len()
        invariant
            j <= all@.len(),
            asks_for_impl(*d),
            forall|k: int|
                0 <= k < j && asks_for_impl(#[trigger] all@[k]) && same_matter(*d, all@[k])
                    ==> all@[k].id <= d.id,
        decreases all.len() - j,
    {
        if all[j].id > d.id && is_impl_request(&all[j]) && is_same_matter(d, &all[j]) {
            return false;
        }
        j = j + 1;
    }
    has_number(known, d.event_id) && !has_number(dispatched, d.id)
}

/// How many of the decisions come before the one of the number.
fn place_of(q: &Vec<(i64, i64)>, id: i64) -> (r: usize)
    ensures
        r == place(q@, id),
        r <= q@.len(),
{
    let mut i: usize = q.len();
    proof {
        assert(q@.take(i as int) =~= q@);
    }
    while i > 0
        invariant
            i <= q@.len(),
            place(q@, id) == place(q@.take(i as int), id),
        decreases i,
    {
        proof {
            assert(q@.take(i as int).last() == q@[i - 1]);
            assert(q@.take(i as int).drop_last() =~= q@.take(i - 1));
        }
        if q[i - 1].0 <= id {
            return i;
        }
        i = i - 1;
    }
    0
}

/// The decisions that one pass takes up, each with its event, from the decisions, the events that are
/// known, and the decisions for which a dispatch was reserved.
pub fn queued_impl_decisions(
    decisions: &Vec<StoredDecision>,
    known: &Vec<i64>,
    dispatched: &Vec<i64>,
    limit: u32,
) -> (r: Vec<(i64, i64)>)
    ensures
        r@ == queue(decisions@, known@, dispatched@, limit as nat),
{
    let mut out: Vec<(i64, i64)> = Vec::new();
    let mut i: usize = 0;
    while i < decisions.len()
        invariant
            i <= decisions@.len(),
            out@ == waiting(decisions@, i as nat, known@, dispatched@),
        decreases decisions.len() - i,
    {
        let d = &decisions[i];
        if is_waiting(decisions, d, known, dispatched) {
            let at = place_of(&out, d.id);
            out.insert(at, (d.id, d.event_id));
        }
        i = i + 1;
    }
    if out.len() > limit as usize {
        out.truncate(limit as usize);
    }
    out
}

/// A decision in the same matter takes the place of the earlier one: no two that wait speak of one
/// issue and one role.
pub proof fn law_one_decision_waits_per_matter(
    all: Seq<StoredDecision>,
    i: int,
    j: int,
    known: Seq<i64>,
    dispatched: Seq<i64>,
)
    requires
        0 <= i < all.len(),
        0 <= j < all.len(),
        all[i].id != all[j].id,
        waits(all, all[i], known, dispatched),
        waits(all, all[j], known, dispatched),
    ensures
        !same_matter(all[i], all[j]),
{
}

/// The decisions that wait come in the order of their numbers.
pub proof fn law_decisions_wait_in_order(
    all: Seq<StoredDecision>,
    n: nat,
    known: Seq<i64>,
    dispatched: Seq<i64>,
)
    requires
        n <= all.len(),
    ensures
        forall|a: int, b: int|
            0 <= a <= b < waiting(all, n, known, dispatched).len() ==> (#[trigger] waiting(
                all,
                n,
                known,
                dispatched,
            )[a]).0 <= (#[trigger] waiting(all, n, known, dispatched)[b]).0,
    decreases n,
{
    if n > 0 {
        law_decisions_wait_in_order(all, (n - 1) as nat, known, dispatched);
        let before = waiting(all, (n - 1) as nat, known, dispatched);
        lemma_place_is_between(before, all[n - 1].id);
    }
}

/// What comes before a place has no greater number, and what comes after it has a greater one.
proof fn lemma_place_is_between(q: Seq<(i64, i64)>, id: i64)
    requires
        forall|a: int, b: int|
            0 <= a <= b < q.len() ==> (#[trigger] q[a]).0 <= (#[trigger] q[b]).0,
    ensures
        place(q, id) <= q.len(),
        forall|a: int| 0 <= a < place(q, id) ==> (#[trigger] q[a]).0 <= id,
        forall|b: int| place(q, id) <= b < q.len() ==> (#[trigger] q[b]).0 > id,
    decreases q.len(),
{
    if q.len() > 0 && q.last().0 > id {
        let rest = q.drop_last();
        assert forall|a: int, b: int| 0 <= a <= b < rest.len() implies (#[trigger] rest[a]).0 <= (
        #[trigger] rest[b]).0 by {
            assert(q[a].0 <= q[b].0);
        }
        lemma_place_is_between(rest, id);
        assert forall|a: int| 0 <= a < place(q, id) implies (#[trigger] q[a]).0 <= id by {
            assert(rest[a].0 <= id);
        }
        assert forall|b: int| place(q, id) <= b < q.len() implies (#[trigger] q[b]).0 > id by {
            if b < rest.len() {
                assert(rest[b].0 > id);
            }
        }
    }
}

/// What was said on an issue are its comments and its issue events with a text, after the one event and up
/// to the other: each of the events is one that the store has, and every such event is there as long as the
/// limit is not reached.
pub proof fn law_deltas_hold_what_was_said(
    events: Seq<StoredEvent>,
    repo: Seq<char>,
    issue: int,
    after: int,
    up_to: int,
    limit: nat,
    k: int,
)
    ensures
        ({
            let d = delta(events, repo, issue, after, up_to, limit);
            &&& d.len() <= limit
            &&& forall|i: int|
                0 <= i < d.len() ==> exists|j: int|
                    0 <= j < events.len() && delta_view((#[trigger] events[j]).row) == #[trigger] d[i]
                        && events[j].repo_full_name@ == repo && events[j].issue_number == Some(
                        issue as i64,
                    ) && after < events[j].id && events[j].id <= up_to
            &&& 0 <= k < events.len() && events[k].repo_full_name@ == repo && events[k].issue_number
                == Some(issue as i64) && after < events[k].id && events[k].id <= up_to && (
            events[k].row.event_type@ == "issue_comment"@ || events[k].row.event_type@ == "issues"@) && (
            opt_view(events[k].row.event_text) matches Some(t) && t.len() > 0) && d.len() < limit
                ==> d.contains(delta_view(events[k].row))
        }),
    decreases events.len(),
{
    if events.len() > 0 {
        let p = events.drop_last();
        let b = delta(p, repo, issue, after, up_to, limit);
        let d = delta(events, repo, issue, after, up_to, limit);
        law_deltas_hold_what_was_said(p, repo, issue, after, up_to, limit, k);
        assert forall|i: int| 0 <= i < d.len() implies exists|j: int|
            0 <= j < events.len() && delta_view((#[trigger] events[j]).row) == #[trigger] d[i]
                && events[j].repo_full_name@ == repo && events[j].issue_number == Some(issue as i64)
                && after < events[j].id && events[j].id <= up_to by {
            if i < b.len() {
                assert(d[i] == b[i]);
                let j = choose|j: int|
                    0 <= j < p.len() && delta_view((#[trigger] p[j]).row) == b[i]
                        && p[j].repo_full_name@ == repo && p[j].issue_number == Some(issue as i64)
                        && after < p[j].id && p[j].id <= up_to;
                assert(events[j] == p[j]);
            } else {
                assert(events[events.len() - 1] == events.last());
            }
        }
        if 0 <= k < events.len() && tells(events[k], repo, issue, after, up_to) && d.len() < limit {
            if k < p.len() {
                assert(p[k] == events[k]);
                let i = choose|i: int| 0 <= i < b.len() && b[i] == delta_view(events[k].row);
                assert(d[i] == b[i]);
            } else {
                assert(d.last() == delta_view(events[k].row));
                assert(d[d.len() - 1] == d.last());
            }
        }
    }
}

/// What was said comes in the order of the events: later events only add to it.
pub proof fn law_deltas_grow_with_the_events(
    events: Seq<StoredEvent>,
    more: Seq<StoredEvent>,
    repo: Seq<char>,
    issue: int,
    after: int,
    up_to: int,
    limit: nat,
)
    ensures
        delta(events, repo, issue, after, up_to, limit).is_prefix_of(
            delta(events + more, repo, issue, after, up_to, limit),
        ),
    decreases more.len(),
{
    if more.len() == 0 {
        assert(events + more =~= events);
    } else {
        law_deltas_grow_with_the_events(
            events,
            more.drop_last(),
            repo,
            issue,
            after,
            up_to,
            limit,
        );
        assert((events + more).drop_last() =~= events + more.drop_last());
    }
}

/// The decisions that wait are those that ask for an implementation that no dispatch was reserved for, each
/// with its event: each that waits is there, and nothing else.
pub proof fn law_queues_hold_what_waits(
    all: Seq<StoredDecision>,
    n: nat,
    known: Seq<i64>,
    dispatched: Seq<i64>,
    k: int,
)
    requires
        n <= all.len(),
    ensures
        ({
            let q = waiting(all, n, known, dispatched);
            &&& forall|i: int|
                0 <= i < q.len() ==> exists|j: int|
                    0 <= j < n && (#[trigger] all[j]).id == (#[trigger] q[i]).0 && all[j].event_id == q[i].1
                        && all[j].would_dispatch && opt_view(all[j].directive) == Some("impl"@)
                        && known.contains(all[j].event_id) && !dispatched.contains(all[j].id)
            &&& 0 <= k < n && all[k].would_dispatch && opt_view(all[k].directive) == Some("impl"@)
                && all[k].issue_number is Some && all[k].target_role is Some && known.contains(
                all[k].event_id,
            ) && !dispatched.contains(all[k].id) && (forall|j: int|
                0 <= j < all.len() && (#[trigger] all[j]).would_dispatch && opt_view(all[j].directive)
                    == Some("impl"@) && all[j].repo_full_name@ == all[k].repo_full_name@
                    && all[j].issue_number == all[k].issue_number && opt_view(all[j].target_role)
                    == opt_view(all[k].target_role) ==> all[j].id <= all[k].id) ==> q.contains(
                (all[k].id, all[k].event_id),
            )
        }),
    decreases n,
{
    if n > 0 {
        let m = (n - 1) as nat;
        let d = all[n - 1];
        let b = waiting(all, m, known, dispatched);
        let q = waiting(all, n, known, dispatched);
        law_queues_hold_what_waits(all, m, known, dispatched, k);
        law_decisions_wait_in_order(all, m, known, dispatched);
        lemma_place_is_between(b, d.id);
        let p = place(b, d.id) as int;
        if waits(all, d, known, dispatched) {
            assert(q == b.insert(p, (d.id, d.event_id)));
            assert(q[p] == (d.id, d.event_id));
        }
        assert forall|i: int| 0 <= i < q.len() implies exists|j: int|
            0 <= j < n && (#[trigger] all[j]).id == (#[trigger] q[i]).0 && all[j].event_id == q[i].1
                && all[j].would_dispatch && opt_view(all[j].directive) == Some("impl"@)
                && known.contains(all[j].event_id) && !dispatched.contains(all[j].id) by {
            if waits(all, d, known, dispatched) && i == p {
                assert(all[n - 1].id == q[i].0);
            } else {
                let bi = if waits(all, d, known, dispatched) && i > p {
                    i - 1
                } else {
                    i
                };
                assert(q[i] == b[bi]);
                let j = choose|j: int|
                    0 <= j < m && (#[trigger] all[j]).id == b[bi].0 && all[j].event_id == b[bi].1
                        && all[j].would_dispatch && opt_view(all[j].directive) == Some("impl"@)
                        && known.contains(all[j].event_id) && !dispatched.contains(all[j].id);
                assert(all[j].id == q[i].0);
            }
        }
        if 0 <= k < m && b.contains((all[k].id, all[k].event_id)) {
            let i = choose|i: int| 0 <= i < b.len() && b[i] == (all[k].id, all[k].event_id);
            if waits(all, d, known, dispatched) {
                if i < p {
                    assert(q[i] == b[i]);
                } else {
                    assert(q[i + 1] == b[i]);
                }
            }
        }
    }
}

/// One pass takes up the earliest of the decisions that wait, as many as it may.
pub proof fn law_the_earliest_are_taken_up(
    all: Seq<StoredDecision>,
    known: Seq<i64>,
    dispatched: Seq<i64>,
    limit: nat,
)
    ensures
        ({
            let q = queue(all, known, dispatched, limit);
            let w = waiting(all, all.len(), known, dispatched);
            &&& q.is_prefix_of(w)
            &&& q.len() <= limit
            &&& w.len() <= limit ==> q == w
            &&& w.len() > limit ==> q.len() == limit
        }),
{
}

/// A summary has a line for each event, with the time at which it was written or else received, who wrote
/// it, what it is and what was said; without events it says so.
pub proof fn law_summaries_tell_each_event(rows: Seq<IssueEventDeltaRow>, r: DeltaRow<Seq<char>>)
    ensures
        rows.len() == 0 ==> delta_text(rows) == "(no new issue events since last handled dispatch)"@,
        rows.len() > 0 ==> delta_text(rows) == join(
            rows.map_values(|x: IssueEventDeltaRow| delta_line(delta_view(x))),
            "\n"@,
        ),
        r.source_created_at is None && r.actor_login is None ==> delta_line(r) == "- ["@ + r.received_at
            + "] "@ + "unknown"@ + " "@ + r.event_type + ": "@ + short_text(r.event_text),
        r.source_created_at matches Some(at) ==> (r.actor_login matches Some(who) ==> (trim(at).len() > 0
            && trim(who).len() > 0 ==> delta_line(r) == "- ["@ + at + "] "@ + who + " "@ + r.event_type
            + ": "@ + short_text(r.event_text))),
{
    assert(delta_lines(delta_views(rows)) =~= rows.map_values(
        |x: IssueEventDeltaRow| delta_line(delta_view(x)),
    ));
}

/// What a summary shows of a text is on one line, and cut where it is long.
pub proof fn law_summaries_cut_long_texts(t: Seq<char>)
    requires
        t.len() > 0,
        forall|i: int| 0 <= i < t.len() ==> #[trigger] t[i] != '\n',
        !crate::text::is_space(t[0]),
        !crate::text::is_space(t.last()),
    ensures
        t.len() <= 220 ==> short_text(Some(t)) == t,
        t.len() > 220 ==> short_text(Some(t)) == t.take(220) + "..."@,
{
    lemma_nothing_replaced(t, '\n', " "@);
    crate::text::lemma_trim_keeps(t);
}

/// Nothing is replaced in a text without the character.
proof fn lemma_nothing_replaced(s: Seq<char>, from: char, to: Seq<char>)
    requires
        forall|i: int| 0 <= i < s.len() ==> #[trigger] s[i] != from,
    ensures
        replace_char(s, from, to) == s,
    decreases s.len(),
{
    if s.len() > 0 {
        let p = s.drop_last();
        assert forall|i: int| 0 <= i < p.len() implies #[trigger] p[i] != from by {
            assert(p[i] == s[i]);
        }
        lemma_nothing_replaced(p, from, to);
        assert(s[s.len() - 1] == s.last());
        assert(p + seq![s.last()] =~= s);
    }
}

} // verus!
