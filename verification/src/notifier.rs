//! Notices to the operator: what they say, how they look, and which of them are left out.

use crate::config_load::DispatchNotificationPhase;
use crate::digest::{hex_digit, hex_of, sha256, sha256_of};
use crate::ledger::{row_view, DispatchRow, Ledger};
use crate::text::{
    add_text, blank, cat2, cat3, cat4, cat5, clone_opt, decimal, decimal_int, first_chars,
    i64_text, join, lines, opt_view, push_char, str_blank, str_eq, str_first_chars, str_join,
    str_lines, str_trim, texts, trim, u64_text, views,
};
use crate::triggers::listed;
use crate::types::DispatchState;
use vstd::prelude::*;
use vstd::string::*;

verus! {

/// How many notices of a kind one pass gives at most.
pub const MAX_NOTIFICATIONS_PER_PASS: u32 = 32;

/// How many characters of a reply a notice shows at most.
pub const REPLY_HEADLINE_LIMIT: usize = 200;

/// What a notice says of a phase.
pub open spec fn phase_words(phase: DispatchNotificationPhase) -> Seq<char> {
    match phase {
        DispatchNotificationPhase::Started => "dispatch started"@,
        DispatchNotificationPhase::Completed => "dispatch completed"@,
        DispatchNotificationPhase::Failed => "dispatch failed"@,
        DispatchNotificationPhase::Blocked => "dispatch blocked"@,
    }
}

/// What a notice says of a phase.
pub fn phase_summary(phase: DispatchNotificationPhase) -> (r: &'static str)
    ensures
        r@ == phase_words(phase),
{
    match phase {
        DispatchNotificationPhase::Started => "dispatch started",
        DispatchNotificationPhase::Completed => "dispatch completed",
        DispatchNotificationPhase::Failed => "dispatch failed",
        DispatchNotificationPhase::Blocked => "dispatch blocked",
    }
}

/// The light half of a colour's range, by a byte of a digest.
pub open spec fn light(b: u8) -> u8 {
    (128 + b / 2) as u8
}

/// A light colour by the first bytes of a digest.
pub open spec fn pastel(digest: Seq<u8>) -> Seq<char> {
    "#"@ + hex_of(seq![light(digest[0]), light(digest[1]), light(digest[2])])
}

/// A number by four bytes of a digest, the first of them without its highest bit.
pub open spec fn digest_number(digest: Seq<u8>) -> nat {
    ((digest[4] % 128) * 16_777_216 + digest[5] * 65_536 + digest[6] * 256 + digest[7]) as nat
}

/// What the looks of a notice go by: its thread, where it has one.
pub open spec fn look_key(thread: Seq<char>) -> Seq<char> {
    if thread.len() == 0 {
        "global"@
    } else {
        thread
    }
}

/// The digest that the looks of a notice go by.
pub open spec fn look_digest(thread: Seq<char>) -> Seq<u8> {
    sha256_of(vstd::utf8::encode_utf8(look_key(thread)))
}

/// Adds the two hexadecimal digits of a byte.
fn push_hex(out: &mut String, b: u8)
    ensures
        final(out)@ == old(out)@.push(hex_digit((b / 16) as nat)).push(hex_digit((b % 16) as nat)),
{
    let hi: u8 = b / 16;
    let lo: u8 = b % 16;
    let a = if hi < 10 {
        (48 + hi) as char
    } else {
        (87 + hi) as char
    };
    let z = if lo < 10 {
        (48 + lo) as char
    } else {
        (87 + lo) as char
    };
    push_char(out, a);
    push_char(out, z);
}

/// A light colour by the first bytes of a digest.
pub fn pastel_of_digest(digest: &Vec<u8>) -> (r: String)
    requires
        digest@.len() >= 3,
    ensures
        r@ == pastel(digest@),
{
    let mut out = "#".to_owned();
    push_hex(&mut out, 128 + digest[0] / 2);
    push_hex(&mut out, 128 + digest[1] / 2);
    push_hex(&mut out, 128 + digest[2] / 2);
    proof {
        let a = seq![light(digest@[0])];
        let b = a.push(light(digest@[1]));
        let c = b.push(light(digest@[2]));
        assert(c =~= seq![light(digest@[0]), light(digest@[1]), light(digest@[2])]);
        assert(a.drop_last() =~= Seq::<u8>::empty());
        assert(b.drop_last() =~= a);
        assert(c.drop_last() =~= b);
        reveal_with_fuel(hex_of, 4);
        assert(out@ =~= "#"@ + hex_of(c));
    }
    out
}

/// A number by four bytes of a digest.
pub fn number_of_digest(digest: &Vec<u8>) -> (r: u64)
    requires
        digest@.len() >= 8,
    ensures
        r == digest_number(digest@),
{
    ((digest[4] % 128) as u64) * 16_777_216 + (digest[5] as u64) * 65_536 + (digest[6] as u64) * 256
        + (digest[7] as u64)
}

/// The digest that the looks of a notice go by.
fn digest_of(thread: &str) -> (r: Vec<u8>)
    ensures
        r@ == look_digest(thread@),
        r@.len() == 32,
{
    let key = if thread.is_empty() {
        "global"
    } else {
        thread
    };
    sha256(key.as_bytes())
}

/// The colour of the notices of a thread.
pub fn pastel_bgcolor(thread: &str) -> (r: String)
    ensures
        r@ == pastel(look_digest(thread@)),
{
    let digest = digest_of(thread);
    pastel_of_digest(&digest)
}

/// The number under which the notices of a thread replace each other.
pub fn replacement_id(thread: &str) -> (r: String)
    ensures
        r@ == decimal(digest_number(look_digest(thread@))),
{
    let digest = digest_of(thread);
    u64_text(number_of_digest(&digest))
}

/// The thread of an issue.
pub open spec fn thread_of(repo: Seq<char>, number: u64) -> Seq<char> {
    repo + "#"@ + decimal(number as nat)
}

/// The thread of an issue.
pub fn thread_key(repo_full_name: &str, issue_number: u64) -> (r: String)
    ensures
        r@ == thread_of(repo_full_name@, issue_number),
{
    let n = u64_text(issue_number);
    cat3(repo_full_name, "#", n.as_str())
}

/// The text cut to so many characters, with an ellipsis where something was cut off.
pub open spec fn cut(s: Seq<char>, max: nat) -> Seq<char> {
    if s.len() > max {
        first_chars(s, max) + "…"@
    } else {
        s
    }
}

/// The text cut to so many characters, with an ellipsis where something was cut off.
pub fn truncate_ellipsis(input: &str, max_chars: usize) -> (r: String)
    ensures
        r@ == cut(input@, max_chars as nat),
{
    let n: usize = input.unicode_len();
    if n > max_chars {
        let head = str_first_chars(input, max_chars);
        cat2(head.as_str(), "…")
    } else {
        input.to_owned()
    }
}

/// The first of the lines that is not blank, without white space around it.
pub open spec fn first_said(ls: Seq<Seq<char>>) -> Seq<char>
    decreases ls.len(),
{
    if ls.len() == 0 {
        "commented"@
    } else if trim(ls[0]).len() > 0 {
        trim(ls[0])
    } else {
        first_said(ls.drop_first())
    }
}

/// The first line of a text that is not blank.
pub fn first_non_empty_line(text: &str) -> (r: String)
    ensures
        r@ == first_said(lines(text@)),
{
    let ls = str_lines(text);
    let mut i: usize = 0;
    proof {
        assert(views(ls@).skip(0) =~= views(ls@));
    }
    while i < ls.len()
        invariant
            i <= ls@.len(),
            views(ls@) == lines(text@),
            first_said(lines(text@)) == first_said(views(ls@).skip(i as int)),
        decreases ls.len() - i,
    {
        proof {
            assert(views(ls@).skip(i as int)[0] == ls@[i as int]@);
            assert(views(ls@).skip(i as int).drop_first() =~= views(ls@).skip(i + 1));
        }
        let line = str_trim(ls[i].as_str());
        if !line.is_empty() {
            return line.to_owned();
        }
        i = i + 1;
    }
    "commented".to_owned()
}

/// A phase of a dispatch that the operator has not been told of.
pub struct DispatchPhaseNotificationRow {
    pub dispatch_id: i64,
    pub phase: DispatchNotificationPhase,
    pub repo_full_name: String,
    pub issue_number: u64,
    pub directive: String,
    pub target_role: String,
    pub status: DispatchState,
    pub reason_code: Option<String>,
    pub dedupe_key: String,
}

/// A reply that the operator has not been told of.
pub struct ReplyNotificationRow {
    pub event_id: i64,
    pub repo_full_name: String,
    pub issue_number: u64,
    pub actor_login: String,
    pub event_text: String,
    pub dedupe_key: String,
}

/// What the notice of a phase is about.
pub open spec fn phase_lines(row: DispatchPhaseNotificationRow) -> Seq<Seq<char>> {
    seq![
        "issue: "@ + thread_of(row.repo_full_name@, row.issue_number),
        "directive: "@ + row.directive@,
        "role: "@ + row.target_role@,
        "state: "@ + row.status.word(),
    ] + (match opt_view(row.reason_code) {
        Some(reason) if !blank(reason) => seq!["reason: "@ + reason],
        _ => Seq::empty(),
    })
}

/// The head of the notice of a phase.
pub fn dispatch_summary(row: &DispatchPhaseNotificationRow) -> (r: String)
    ensures
        r@ == phase_words(row.phase),
{
    phase_summary(row.phase).to_owned()
}

/// The body of the notice of a phase.
pub fn dispatch_body(row: &DispatchPhaseNotificationRow) -> (r: String)
    ensures
        r@ == join(phase_lines(*row), "\n"@),
{
    let thread = thread_key(row.repo_full_name.as_str(), row.issue_number);
    let mut out: Vec<String> = Vec::new();
    proof {
        assert(views(out@) =~= Seq::<Seq<char>>::empty());
    }
    add_text(&mut out, cat2("issue: ", thread.as_str()));
    add_text(&mut out, cat2("directive: ", row.directive.as_str()));
    add_text(&mut out, cat2("role: ", row.target_role.as_str()));
    add_text(&mut out, cat2("state: ", row.status.as_db_str()));
    if let Some(reason) = &row.reason_code {
        if !str_blank(reason.as_str()) {
            add_text(&mut out, cat2("reason: ", reason.as_str()));
        }
    }
    proof {
        assert(views(out@) =~= phase_lines(*row));
    }
    str_join(&out, "\n")
}

/// The head of the notice of a reply.
pub fn reply_summary() -> (r: &'static str)
    ensures
        r@ == "Codex"@,
{
    "Codex"
}

/// The body of the notice of a reply.
pub open spec fn reply_words(row: ReplyNotificationRow) -> Seq<char> {
    thread_of(row.repo_full_name@, row.issue_number) + " — "@ + row.actor_login@ + ": "@ + cut(
        first_said(lines(row.event_text@)),
        REPLY_HEADLINE_LIMIT as nat,
    )
}

/// The body of the notice of a reply.
pub fn reply_body(row: &ReplyNotificationRow) -> (r: String)
    ensures
        r@ == reply_words(*row),
{
    let thread = thread_key(row.repo_full_name.as_str(), row.issue_number);
    let line = first_non_empty_line(row.event_text.as_str());
    let headline = truncate_ellipsis(line.as_str(), REPLY_HEADLINE_LIMIT);
    cat5(thread.as_str(), " — ", row.actor_login.as_str(), ": ", headline.as_str())
}

/// The arguments with which the notice is sent.
pub fn send_notification(app_name: &str, summary: &str, body: &str, thread: &str) -> (r: Vec<String>)
    ensures
        views(r@) == seq![
            "-a"@,
            app_name@,
            "-r"@,
            decimal(digest_number(look_digest(thread@))),
            "-h"@,
            "string:bgcolor:"@ + pastel(look_digest(thread@)),
            summary@,
            body@,
        ],
{
    let id = replacement_id(thread);
    let colour = pastel_bgcolor(thread);
    let hint = cat2("string:bgcolor:", colour.as_str());
    let a = ["-a", app_name, "-r", id.as_str(), "-h", hint.as_str(), summary, body];
    let list = texts(&a);
    proof {
        assert(views(list@) =~= seq![
            "-a"@,
            app_name@,
            "-r"@,
            decimal(digest_number(look_digest(thread@))),
            "-h"@,
            "string:bgcolor:"@ + pastel(look_digest(thread@)),
            summary@,
            body@,
        ]);
    }
    list
}

/// What is said where the notice could not be sent.
pub fn notification_failure(status: &str, thread: &str) -> (r: String)
    ensures
        r@ == "notify command exited with status "@ + status@ + " for thread "@ + thread@,
{
    cat4("notify command exited with status ", status, " for thread ", thread)
}

/// What is done about a phase: a thread that a reply of the same pass announced gets no second notice.
#[verifier::ext_equal]
pub enum PhaseNotice<S> {
    Suppressed { thread: S },
    Send { thread: S, summary: S, body: S },
}

/// The view of what is done about a phase.
pub open spec fn notice_view(n: PhaseNotice<String>) -> PhaseNotice<Seq<char>> {
    match n {
        PhaseNotice::Suppressed { thread } => PhaseNotice::Suppressed { thread: thread@ },
        PhaseNotice::Send { thread, summary, body } => PhaseNotice::Send {
            thread: thread@,
            summary: summary@,
            body: body@,
        },
    }
}

/// The phase that a state shows, where it shows one.
pub open spec fn phase_shown(state: DispatchState) -> Option<DispatchNotificationPhase> {
    match state {
        DispatchState::Starting => None,
        DispatchState::Running => Some(DispatchNotificationPhase::Started),
        DispatchState::Completed => Some(DispatchNotificationPhase::Completed),
        DispatchState::Blocked => Some(DispatchNotificationPhase::Blocked),
        _ => Some(DispatchNotificationPhase::Failed),
    }
}

/// The phase that a state shows, where it shows one.
pub fn phase_of(state: DispatchState) -> (r: Option<DispatchNotificationPhase>)
    ensures
        r == phase_shown(state),
{
    match state {
        DispatchState::Starting => None,
        DispatchState::Running => Some(DispatchNotificationPhase::Started),
        DispatchState::Completed => Some(DispatchNotificationPhase::Completed),
        DispatchState::Blocked => Some(DispatchNotificationPhase::Blocked),
        DispatchState::FailedStart | DispatchState::FailedRuntime | DispatchState::TimedOut => Some(
            DispatchNotificationPhase::Failed,
        ),
    }
}

/// The key under which the state of a dispatch is told once.
pub open spec fn phase_key(row: DispatchRow<Seq<char>>) -> Seq<char> {
    "dispatch:"@ + decimal_int(row.id as int) + ":"@ + row.status
}

/// The state of a dispatch is to be told: the dispatch came after the given one, its state shows a phase
/// that is asked for, and that was not told yet.
pub open spec fn phase_due(
    row: DispatchRow<Seq<char>>,
    phases: Seq<DispatchNotificationPhase>,
    after: i64,
    told: Seq<Seq<char>>,
) -> bool {
    &&& row.id > after
    &&& row.issue_number >= 0
    &&& DispatchState::of_word(row.status) matches Some(state) && (phase_shown(state) matches Some(
        phase,
    ) && phases.contains(phase))
    &&& !told.contains(phase_key(row))
}

/// The notice is about the dispatch.
pub open spec fn tells_phase(
    n: DispatchPhaseNotificationRow,
    row: DispatchRow<Seq<char>>,
) -> bool {
    &&& n.dispatch_id == row.id
    &&& DispatchState::of_word(row.status) == Some(n.status)
    &&& phase_shown(n.status) == Some(n.phase)
    &&& n.repo_full_name@ == row.repo_full_name
    &&& n.issue_number == row.issue_number
    &&& n.directive@ == row.directive
    &&& n.target_role@ == row.target_role
    &&& opt_view(n.reason_code) == row.reason_code
    &&& n.dedupe_key@ == phase_key(row)
}

/// The dispatches whose states are to be told, the oldest first.
pub open spec fn phases_due(
    rows: Seq<DispatchRow<Seq<char>>>,
    phases: Seq<DispatchNotificationPhase>,
    after: i64,
    told: Seq<Seq<char>>,
) -> Seq<DispatchRow<Seq<char>>>
    decreases rows.len(),
{
    if rows.len() == 0 {
        Seq::empty()
    } else {
        let before = phases_due(rows.drop_last(), phases, after, told);
        if phase_due(rows.last(), phases, after, told) {
            before.push(rows.last())
        } else {
            before
        }
    }
}

/// Tells whether the phase is among those that are asked for.
fn phase_asked(phases: &Vec<DispatchNotificationPhase>, phase: DispatchNotificationPhase) -> (r:
    bool)
    ensures
        r == phases@.contains(phase),
{
    let mut i: usize = 0;
    while i < phases.len()
        invariant
            i <= phases@.len(),
            forall|k: int| 0 <= k < i ==> phases@[k] != phase,
        decreases phases.len() - i,
    {
        if phases[i] == phase {
            return true;
        }
        i = i + 1;
    }
    false
}

/// The notice about a dispatch, where its state is to be told.
fn phase_row(
    row: &DispatchRow<String>,
    phases: &Vec<DispatchNotificationPhase>,
    after: i64,
    told: &Vec<String>,
) -> (r: Option<DispatchPhaseNotificationRow>)
    ensures
        r is Some <==> phase_due(row_view(*row), phases@, after, views(told@)),
        r matches Some(n) ==> tells_phase(n, row_view(*row)),
{
    if row.id <= after || row.issue_number < 0 {
        return None;
    }
    let status = match DispatchState::parse_db(row.status.as_str()) {
        Some(status) => status,
        None => {
            return None;
        },
    };
    let phase = match phase_of(status) {
        Some(phase) => phase,
        None => {
            return None;
        },
    };
    if !phase_asked(phases, phase) {
        return None;
    }
    let id = i64_text(row.id);
    let dedupe_key = cat4("dispatch:", id.as_str(), ":", row.status.as_str());
    if listed(told, dedupe_key.as_str()) {
        return None;
    }
    Some(
        DispatchPhaseNotificationRow {
            dispatch_id: row.id,
            phase,
            repo_full_name: row.repo_full_name.clone(),
            issue_number: row.issue_number as u64,
            directive: row.directive.clone(),
            target_role: row.target_role.clone(),
            status,
            reason_code: clone_opt(&row.reason_code),
            dedupe_key,
        },
    )
}

/// The notices about dispatches that one pass gives: of those that are due, the oldest.
pub fn pending_dispatch_phase_notifications(
    ledger: &Ledger,
    phases: &Vec<DispatchNotificationPhase>,
    after: i64,
    told: &Vec<String>,
) -> (r: Vec<DispatchPhaseNotificationRow>)
    ensures
        ({
            let due = phases_due(ledger@.rows, phases@, after, views(told@));
            &&& r@.len() == (if due.len() < MAX_NOTIFICATIONS_PER_PASS {
                due.len() as int
            } else {
                MAX_NOTIFICATIONS_PER_PASS as int
            })
            &&& forall|k: int| 0 <= k < r@.len() ==> tells_phase(#[trigger] r@[k], due[k])
        }),
{
    let mut out: Vec<DispatchPhaseNotificationRow> = Vec::new();
    let ghost all = ledger@.rows;
    let ghost keys = views(told@);
    let mut i: usize = 0;
    proof {
        assert(phases_due(all.take(0), phases@, after, keys) =~= Seq::empty());
    }
    while i < ledger.rows.len()
        invariant
            i <= ledger.rows@.len(),
            all == ledger@.rows,
            keys == views(told@),
            ({
                let due = phases_due(all.take(i as int), phases@, after, keys);
                &&& out@.len() == (if due.len() < MAX_NOTIFICATIONS_PER_PASS {
                    due.len() as int
                } else {
                    MAX_NOTIFICATIONS_PER_PASS as int
                })
                &&& forall|k: int| 0 <= k < out@.len() ==> tells_phase(#[trigger] out@[k], due[k])
            }),
        decreases ledger.rows.len() - i,
    {
        proof {
            assert(all.take(i + 1).last() == row_view(ledger.rows@[i as int]));
            assert(all.take(i + 1).drop_last() =~= all.take(i as int));
        }
        match phase_row(&ledger.rows[i], phases, after, told) {
            Some(n) => {
                if out.len() < 32 {
                    out.push(n);
                }
            },
            None => {},
        }
        i = i + 1;
    }
    proof {
        assert(all.take(i as int) =~= all);
    }
    out
}

/// What is done about a phase.
pub open spec fn phase_notice(row: DispatchPhaseNotificationRow, replied: Seq<Seq<char>>) -> PhaseNotice<
    Seq<char>,
> {
    let thread = thread_of(row.repo_full_name@, row.issue_number);
    if replied.contains(thread) {
        PhaseNotice::Suppressed { thread }
    } else {
        PhaseNotice::Send {
            thread,
            summary: phase_words(row.phase),
            body: join(phase_lines(row), "\n"@),
        }
    }
}

/// What is done about a phase.
pub fn notify_dispatch_phase(row: &DispatchPhaseNotificationRow, reply_threads: &Vec<String>) -> (r:
    PhaseNotice<String>)
    ensures
        notice_view(r) == phase_notice(*row, views(reply_threads@)),
{
    let thread = thread_key(row.repo_full_name.as_str(), row.issue_number);
    let ghost keys = views(reply_threads@);
    let mut i: usize = 0;
    while i < reply_threads.len()
        invariant
            i <= reply_threads@.len(),
            keys == views(reply_threads@),
            thread@ == thread_of(row.repo_full_name@, row.issue_number),
            forall|k: int| 0 <= k < i ==> #[trigger] keys[k] != thread@,
        decreases reply_threads.len() - i,
    {
        proof {
            assert(keys[i as int] == reply_threads@[i as int]@);
        }
        if str_eq(reply_threads[i].as_str(), thread.as_str()) {
            return PhaseNotice::Suppressed { thread };
        }
        i = i + 1;
    }
    let summary = dispatch_summary(row);
    let body = dispatch_body(row);
    PhaseNotice::Send { thread, summary, body }
}

/// Under which kind the telling of a phase is recorded, where it is.
pub open spec fn recorded_kind(suppressed: bool, sent: bool) -> Option<Seq<char>> {
    if suppressed {
        Some("dispatch_phase_suppressed"@)
    } else if sent {
        Some("dispatch_phase"@)
    } else {
        None
    }
}

/// The kind under which a phase is recorded as told, where it is.
pub fn delivery_kind(suppressed: bool, sent: bool) -> (r: Option<&'static str>)
    ensures
        (match r {
            Some(k) => Some(k@),
            None => None,
        }) == recorded_kind(suppressed, sent),
        match r {
            Some(k) => (suppressed && k@ == "dispatch_phase_suppressed"@) || (!suppressed && sent
                && k@ == "dispatch_phase"@),
            None => !suppressed && !sent,
        },
{
    if suppressed {
        Some("dispatch_phase_suppressed")
    } else if sent {
        Some("dispatch_phase")
    } else {
        None
    }
}

/// The threads that the replies announced: those of the replies whose notice was sent.
pub open spec fn announced(rows: Seq<ReplyNotificationRow>, sent: Seq<bool>) -> Seq<Seq<char>>
    decreases rows.len(),
{
    if rows.len() == 0 {
        Seq::empty()
    } else {
        let before = announced(rows.drop_last(), sent);
        if sent[rows.len() - 1] {
            before.push(thread_of(rows.last().repo_full_name@, rows.last().issue_number))
        } else {
            before
        }
    }
}

/// The threads that the replies of a pass announced, given which of their notices were sent.
pub fn notify_replies(rows: &Vec<ReplyNotificationRow>, sent: &Vec<bool>) -> (r: Vec<String>)
    requires
        sent@.len() == rows@.len(),
    ensures
        views(r@) == announced(rows@, sent@),
{
    let mut out: Vec<String> = Vec::new();
    let mut i: usize = 0;
    proof {
        assert(views(out@) =~= announced(rows@.take(0), sent@));
    }
    while i < rows.len()
        invariant
            i <= rows@.len(),
            sent@.len() == rows@.len(),
            views(out@) == announced(rows@.take(i as int), sent@),
        decreases rows.len() - i,
    {
        proof {
            assert(rows@.take(i + 1).last() == rows@[i as int]);
            assert(rows@.take(i + 1).drop_last() =~= rows@.take(i as int));
        }
        if sent[i] {
            let thread = thread_key(rows[i].repo_full_name.as_str(), rows[i].issue_number);
            add_text(&mut out, thread);
        }
        i = i + 1;
    }
    proof {
        assert(rows@.take(i as int) =~= rows@);
    }
    out
}

/// A thread is announced by a reply exactly where a notice of one of its replies was sent.
proof fn lemma_announced(rows: Seq<ReplyNotificationRow>, sent: Seq<bool>, thread: Seq<char>)
    requires
        sent.len() >= rows.len(),
    ensures
        announced(rows, sent).contains(thread) <==> exists|i: int|
            0 <= i < rows.len() && sent[i] && #[trigger] thread_of(
                rows[i].repo_full_name@,
                rows[i].issue_number,
            ) == thread,
    decreases rows.len(),
{
    if rows.len() > 0 {
        let before = announced(rows.drop_last(), sent);
        let n = rows.len() - 1;
        let last = thread_of(rows[n].repo_full_name@, rows[n].issue_number);
        lemma_announced(rows.drop_last(), sent, thread);
        if before.contains(thread) {
            let k = choose|k: int| 0 <= k < before.len() && before[k] == thread;
            assert(announced(rows, sent)[k] == thread);
            let i = choose|i: int|
                0 <= i < n && sent[i] && #[trigger] thread_of(
                    rows.drop_last()[i].repo_full_name@,
                    rows.drop_last()[i].issue_number,
                ) == thread;
            assert(thread_of(rows[i].repo_full_name@, rows[i].issue_number) == thread);
        }
        if sent[n] {
            assert(announced(rows, sent) =~= before.push(last));
            assert(announced(rows, sent)[before.len() as int] == last);
            if announced(rows, sent).contains(thread) && !before.contains(thread) {
                let k = choose|k: int|
                    0 <= k < announced(rows, sent).len() && announced(rows, sent)[k] == thread;
                assert(k == before.len());
            }
        }
        if exists|i: int|
            0 <= i < rows.len() && sent[i] && #[trigger] thread_of(
                rows[i].repo_full_name@,
                rows[i].issue_number,
            ) == thread {
            let i = choose|i: int|
                0 <= i < rows.len() && sent[i] && #[trigger] thread_of(
                    rows[i].repo_full_name@,
                    rows[i].issue_number,
                ) == thread;
            if i < n {
                assert(thread_of(
                    rows.drop_last()[i].repo_full_name@,
                    rows.drop_last()[i].issue_number,
                ) == thread);
            }
        }
    }
}

/// What a pass does about each of the phases.
pub fn notify_dispatch_phases(
    rows: &Vec<DispatchPhaseNotificationRow>,
    reply_threads: &Vec<String>,
) -> (r: Vec<PhaseNotice<String>>)
    ensures
        r@.len() == rows@.len(),
        forall|i: int|
            0 <= i < rows@.len() ==> notice_view(#[trigger] r@[i]) == phase_notice(
                rows@[i],
                views(reply_threads@),
            ),
{
    let mut out: Vec<PhaseNotice<String>> = Vec::new();
    let mut i: usize = 0;
    while i < rows.len()
        invariant
            i <= rows@.len(),
            out@.len() == i,
            forall|k: int|
                0 <= k < i ==> notice_view(#[trigger] out@[k]) == phase_notice(
                    rows@[k],
                    views(reply_threads@),
                ),
        decreases rows.len() - i,
    {
        out.push(notify_dispatch_phase(&rows[i], reply_threads));
        i = i + 1;
    }
    out
}

/// A thread that a reply announced gets no notice of a phase in the same pass, and every other does. A
/// reply whose notice could not be sent announces nothing.
pub proof fn law_replies_come_first(
    row: DispatchPhaseNotificationRow,
    replies: Seq<ReplyNotificationRow>,
    sent: Seq<bool>,
)
    requires
        sent.len() == replies.len(),
    ensures
        phase_notice(row, announced(replies, sent)) is Suppressed <==> exists|i: int|
            0 <= i < replies.len() && sent[i] && #[trigger] thread_of(
                replies[i].repo_full_name@,
                replies[i].issue_number,
            ) == thread_of(row.repo_full_name@, row.issue_number),
{
    lemma_announced(replies, sent, thread_of(row.repo_full_name@, row.issue_number));
}

/// What was told is not told again: no state that is to be told has a key that was recorded.
pub proof fn law_phases_are_told_once(
    rows: Seq<DispatchRow<Seq<char>>>,
    phases: Seq<DispatchNotificationPhase>,
    after: i64,
    told: Seq<Seq<char>>,
)
    ensures
        forall|k: int|
            0 <= k < phases_due(rows, phases, after, told).len() ==> !told.contains(
                phase_key(#[trigger] phases_due(rows, phases, after, told)[k]),
            ),
    decreases rows.len(),
{
    if rows.len() > 0 {
        law_phases_are_told_once(rows.drop_last(), phases, after, told);
        let before = phases_due(rows.drop_last(), phases, after, told);
        let due = phases_due(rows, phases, after, told);
        assert forall|k: int| 0 <= k < due.len() implies !told.contains(
            phase_key(#[trigger] due[k]),
        ) by {
            if k < before.len() {
                assert(due[k] == before[k]);
            }
        }
    }
}

/// The colour of a notice is light: none of its parts is in the dark half.
pub proof fn law_colours_are_light(b: u8)
    ensures
        light(b) >= 128,
{
}

/// The state of a dispatch is told exactly where the dispatch came after the given one, its state shows a
/// phase that is asked for, and that was not told before; the oldest come first. A starting dispatch shows
/// nothing, a running one that it started, and each end what it is: every failure, also that of a start or
/// a timeout, is told as one.
pub proof fn law_due_phases_are_told(
    rows: Seq<DispatchRow<Seq<char>>>,
    phases: Seq<DispatchNotificationPhase>,
    after: i64,
    told: Seq<Seq<char>>,
)
    ensures
        forall|x: DispatchRow<Seq<char>>| #[trigger]
            phases_due(rows, phases, after, told).contains(x) <==> rows.contains(x) && x.id > after
                && x.issue_number >= 0 && !told.contains(
                "dispatch:"@ + decimal_int(x.id as int) + ":"@ + x.status,
            ) && ((x.status == "running"@ && phases.contains(DispatchNotificationPhase::Started)) || (
            x.status == "completed"@ && phases.contains(DispatchNotificationPhase::Completed)) || (
            x.status == "blocked"@ && phases.contains(DispatchNotificationPhase::Blocked)) || ((
            x.status == "failed_start"@ || x.status == "failed_runtime"@ || x.status == "timed_out"@)
                && phases.contains(DispatchNotificationPhase::Failed))),
    decreases rows.len(),
{
    let due = phases_due(rows, phases, after, told);
    if rows.len() > 0 {
        let t = rows.drop_last();
        let before = phases_due(t, phases, after, told);
        law_due_phases_are_told(t, phases, after, told);
        lemma_phase_words(rows.last().status);
        assert forall|x: DispatchRow<Seq<char>>| #[trigger] due.contains(x) <==> before.contains(x) || (
        x == rows.last() && phase_due(x, phases, after, told)) by {
            if due.contains(x) {
                let k = choose|k: int| 0 <= k < due.len() && due[k] == x;
                if k < before.len() {
                    assert(before[k] == x);
                }
            }
            if before.contains(x) {
                let k = choose|k: int| 0 <= k < before.len() && before[k] == x;
                assert(due[k] == x);
            }
            if x == rows.last() && phase_due(x, phases, after, told) {
                assert(due[before.len() as int] == x);
            }
        }
        assert forall|x: DispatchRow<Seq<char>>| #[trigger] rows.contains(x) <==> t.contains(x) || x
            == rows.last() by {
            if rows.contains(x) {
                let k = choose|k: int| 0 <= k < rows.len() && rows[k] == x;
                if k < t.len() {
                    assert(t[k] == x);
                }
            }
            if t.contains(x) {
                let k = choose|k: int| 0 <= k < t.len() && t[k] == x;
                assert(rows[k] == x);
            }
            assert(rows[rows.len() - 1] == rows.last());
        }
    }
}

/// The words of the states.
proof fn lemma_phase_words(word: Seq<char>)
    ensures
        ({
            let s = DispatchState::of_word(word);
            &&& s == Some(DispatchState::Running) <==> word == "running"@
            &&& s == Some(DispatchState::Completed) <==> word == "completed"@
            &&& s == Some(DispatchState::Blocked) <==> word == "blocked"@
            &&& s == Some(DispatchState::FailedStart) <==> word == "failed_start"@
            &&& s == Some(DispatchState::FailedRuntime) <==> word == "failed_runtime"@
            &&& s == Some(DispatchState::TimedOut) <==> word == "timed_out"@
        }),
{
    crate::types::law_dispatch_states_read_back(DispatchState::Running, word);
    crate::types::law_dispatch_states_read_back(DispatchState::Completed, word);
    crate::types::law_dispatch_states_read_back(DispatchState::Blocked, word);
    crate::types::law_dispatch_states_read_back(DispatchState::FailedStart, word);
    crate::types::law_dispatch_states_read_back(DispatchState::FailedRuntime, word);
    crate::types::law_dispatch_states_read_back(DispatchState::TimedOut, word);
}

/// A notice of a phase names the issue, what was asked of whom, the state and, where there is one, the
/// reason; its head says which phase it is.
pub proof fn law_phase_notices_name_the_dispatch(
    row: DispatchPhaseNotificationRow,
    replied: Seq<Seq<char>>,
)
    ensures
        phase_notice(row, replied) matches PhaseNotice::Send { thread, summary, body } ==> {
            &&& thread == row.repo_full_name@ + "#"@ + decimal(row.issue_number as nat)
            &&& summary == (match row.phase {
                DispatchNotificationPhase::Started => "dispatch started"@,
                DispatchNotificationPhase::Completed => "dispatch completed"@,
                DispatchNotificationPhase::Failed => "dispatch failed"@,
                DispatchNotificationPhase::Blocked => "dispatch blocked"@,
            })
            &&& exists|parts: Seq<Seq<char>>|
                body == #[trigger] join(parts, "\n"@) && parts.len() >= 4 && parts[0] == "issue: "@
                    + thread && parts[1] == "directive: "@ + row.directive@ && parts[2] == "role: "@
                    + row.target_role@ && parts[3] == "state: "@ + row.status.word() && (
                row.reason_code matches Some(r) ==> (trim(r@).len() > 0 ==> parts.len() == 5 && parts[4]
                    == "reason: "@ + r@))
        },
        phase_notice(row, replied) is Suppressed <==> replied.contains(
            row.repo_full_name@ + "#"@ + decimal(row.issue_number as nat),
        ),
{
    let thread = thread_of(row.repo_full_name@, row.issue_number);
    let parts = phase_lines(row);
    assert(join(parts, "\n"@) == join(phase_lines(row), "\n"@));
    assert(parts[0] == "issue: "@ + thread);
}

/// A notice of a reply names the issue and the author, and shows the first line that says something, cut
/// to two hundred characters.
pub proof fn law_reply_notices_show_the_first_line(row: ReplyNotificationRow, k: int)
    requires
        0 <= k < lines(row.event_text@).len(),
        trim(lines(row.event_text@)[k]).len() > 0,
        forall|j: int| 0 <= j < k ==> trim(#[trigger] lines(row.event_text@)[j]).len() == 0,
    ensures
        trim(lines(row.event_text@)[k]).len() <= 200 ==> reply_words(row) == row.repo_full_name@ + "#"@
            + decimal(row.issue_number as nat) + " — "@ + row.actor_login@ + ": "@ + trim(
            lines(row.event_text@)[k],
        ),
        trim(lines(row.event_text@)[k]).len() > 200 ==> reply_words(row) == row.repo_full_name@ + "#"@
            + decimal(row.issue_number as nat) + " — "@ + row.actor_login@ + ": "@ + (trim(
            lines(row.event_text@)[k],
        ).take(200) + "…"@),
{
    lemma_first_said(lines(row.event_text@), k);
}

/// The first line that says something is the one that is shown.
proof fn lemma_first_said(ls: Seq<Seq<char>>, k: int)
    requires
        0 <= k < ls.len(),
        trim(ls[k]).len() > 0,
        forall|j: int| 0 <= j < k ==> trim(#[trigger] ls[j]).len() == 0,
    ensures
        first_said(ls) == trim(ls[k]),
    decreases k,
{
    if k > 0 {
        let t = ls.drop_first();
        assert(trim(ls[0]).len() == 0);
        assert(t[k - 1] == ls[k]);
        assert forall|j: int| 0 <= j < k - 1 implies trim(#[trigger] t[j]).len() == 0 by {
            assert(t[j] == ls[j + 1]);
        }
        lemma_first_said(t, k - 1);
    }
}

/// Notices of one thread look the same and replace one another; those without a thread share one look. The
/// number is that of the four bytes behind the colour, without a sign.
pub proof fn law_threads_have_one_look(thread: Seq<char>, digest: Seq<u8>)
    ensures
        thread.len() > 0 ==> look_digest(thread) == sha256_of(vstd::utf8::encode_utf8(thread)),
        look_digest(Seq::empty()) == sha256_of(vstd::utf8::encode_utf8("global"@)),
        digest_number(digest) < 0x8000_0000,
        digest[4] < 128 ==> digest_number(digest) == digest[4] * 0x100_0000 + digest[5] * 0x1_0000
            + digest[6] * 0x100 + digest[7],
        digest[4] >= 128 ==> digest_number(digest) == (digest[4] - 128) * 0x100_0000 + digest[5]
            * 0x1_0000 + digest[6] * 0x100 + digest[7],
        pastel(digest) == "#"@ + hex_of(
            seq![light(digest[0]), light(digest[1]), light(digest[2])],
        ),
{
}

/// A notice on a dispatch tells what its row says.
pub proof fn law_notices_tell_the_row(n: DispatchPhaseNotificationRow, row: DispatchRow<Seq<char>>)
    requires
        tells_phase(n, row),
    ensures
        n.dispatch_id == row.id,
        row.status == n.status.word(),
        n.repo_full_name@ == row.repo_full_name,
        n.issue_number == row.issue_number,
        n.directive@ == row.directive,
        n.target_role@ == row.target_role,
        opt_view(n.reason_code) == row.reason_code,
        n.dedupe_key@ == phase_key(row),
        n.phase == DispatchNotificationPhase::Completed <==> row.status == "completed"@,
        n.phase == DispatchNotificationPhase::Blocked <==> row.status == "blocked"@,
{
    crate::types::law_dispatch_states_read_back(n.status, row.status);
    crate::types::law_dispatch_states_read_back(DispatchState::Completed, row.status);
    crate::types::law_dispatch_states_read_back(DispatchState::Blocked, row.status);
}

/// A phase that was told or is not to be told is recorded, each under its kind, and one that could not be
/// told is not.
pub proof fn law_told_phases_are_recorded(sent: bool)
    ensures
        recorded_kind(true, sent) == Some("dispatch_phase_suppressed"@),
        recorded_kind(false, true) == Some("dispatch_phase"@),
        recorded_kind(false, false) is None,
{
}

/// A notice on a dispatch tells its issue, directive, role and state, and its reason where there is one; its
/// phases have their words.
pub proof fn law_notices_have_their_lines(row: DispatchPhaseNotificationRow)
    ensures
        ({
            let l = phase_lines(row);
            &&& l[0] == "issue: "@ + thread_of(row.repo_full_name@, row.issue_number)
            &&& l[1] == "directive: "@ + row.directive@
            &&& l[2] == "role: "@ + row.target_role@
            &&& l[3] == "state: "@ + row.status.word()
            &&& row.reason_code is None ==> l.len() == 4
            &&& row.reason_code matches Some(r) ==> (trim(r@).len() > 0 ==> l.len() == 5 && l[4]
                == "reason: "@ + r@)
            &&& row.reason_code matches Some(r) ==> (trim(r@).len() == 0 ==> l.len() == 4)
        }),
        phase_words(DispatchNotificationPhase::Started) == "dispatch started"@,
        phase_words(DispatchNotificationPhase::Completed) == "dispatch completed"@,
        phase_words(DispatchNotificationPhase::Failed) == "dispatch failed"@,
        phase_words(DispatchNotificationPhase::Blocked) == "dispatch blocked"@,
{
}

} // verus!
