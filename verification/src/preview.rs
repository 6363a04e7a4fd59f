//! A look at the prompt that a dispatch would get, without one.

use crate::admission::Fault;
use crate::artifacts::{
    envelope_of, file_name, filled, filled_file, outcome, preamble_of, render_fresh_preamble,
    render_prompt_file, turn_type, unless_blank, PromptFiles,
};
use crate::cli::PromptMode;
use crate::config_load::{
    directive_names, directive_views, find_directive, find_role, DispatchConfig,
};
use crate::dispatch_config::{role_names, role_views};
use crate::envelopes::{card_path, DispatchPromptEnvelopeConfig};
use crate::errors::DispatchError;
use crate::history::{delta_text, issue_activity, IssueEventDeltaRow};
use crate::paths::text_result;
use crate::rank_acl::DispatchRankAclConfig;
use crate::template::{pairs, render_prompt};
use crate::text::{
    byte_len, cat2, cat3, chars_of, decimal, first_at, fit, fitting, has_key, law_fit_is_the_most,
    norm, str_blank, str_norm, u64_text,
};
use vstd::prelude::*;
use vstd::string::*;

verus! {

/// What stands for the history of an issue that was not asked for.
pub const PREVIEW_HISTORY_PLACEHOLDER: &'static str = "(prompt preview does not include conversation history)";

/// What stands for the news of an issue that were not asked for.
pub const PREVIEW_DELTA_PLACEHOLDER: &'static str = "(prompt preview does not include delta summary)";

/// The characters of a text that fit in so many bytes, and whether something was cut off.
pub open spec fn capped(text: Seq<char>, cap: nat) -> (Seq<char>, bool) {
    (text.take(fit(text, cap) as int), byte_len(text) > cap)
}

/// The characters of a text that fit in so many bytes, and whether something was cut off.
pub fn truncate_preview_bytes(text: &str, byte_cap: usize) -> (r: (String, bool))
    ensures
        (r.0@, r.1) == capped(text@, byte_cap as nat),
        !r.1 ==> r.0@ == text@,
{
    let cs = chars_of(text);
    let n: usize = fitting(&cs, byte_cap).0;
    proof {
        law_fit_is_the_most(text@, byte_cap as nat);
        if n == cs@.len() {
            assert(text@.take(n as int) =~= text@);
        }
    }
    if n == cs.len() {
        return (text.to_owned(), false);
    }
    (text.substring_char(0, n).to_owned(), true)
}

/// What is added where events or bytes were left out.
pub open spec fn cap_notes(rows_cut: bool, bytes_cut: bool, row_cap: nat, byte_cap: nat) -> Seq<char> {
    (if rows_cut {
        "\n\n(note: preview row cap hit at "@ + decimal(row_cap)
            + " events; raise --preview-row-cap for more)"@
    } else {
        Seq::empty()
    }) + (if bytes_cut {
        "\n\n(note: preview byte cap hit at "@ + decimal(byte_cap)
            + " bytes; raise --preview-byte-cap for more)"@
    } else {
        Seq::empty()
    })
}

/// The text within its bounds, with a note for each that was reached.
pub open spec fn within_caps(text: Seq<char>, rows_cut: bool, row_cap: nat, byte_cap: nat) -> Seq<char> {
    capped(text, byte_cap).0 + cap_notes(rows_cut, capped(text, byte_cap).1, row_cap, byte_cap)
}

/// The text within its bounds, with a note for each that was reached.
pub fn apply_preview_caps(rendered: String, rows_truncated: bool, row_cap: usize, byte_cap: usize) -> (r:
    String)
    ensures
        r@ == within_caps(rendered@, rows_truncated, row_cap as nat, byte_cap as nat),
        !rows_truncated && byte_len(rendered@) <= byte_cap ==> r@ == rendered@,
{
    let (mut out, bytes_truncated) = truncate_preview_bytes(rendered.as_str(), byte_cap);
    let ghost head = out@;
    if rows_truncated {
        let n = u64_text(row_cap as u64);
        let note = cat3(
            "\n\n(note: preview row cap hit at ",
            n.as_str(),
            " events; raise --preview-row-cap for more)",
        );
        out.append(note.as_str());
    }
    if bytes_truncated {
        let n = u64_text(byte_cap as u64);
        let note = cat3(
            "\n\n(note: preview byte cap hit at ",
            n.as_str(),
            " bytes; raise --preview-byte-cap for more)",
        );
        out.append(note.as_str());
    }
    proof {
        assert(out@ =~= head + cap_notes(
            rows_truncated,
            bytes_truncated,
            row_cap as nat,
            byte_cap as nat,
        ));
    }
    out
}

/// The first events, as many as the bound allows.
pub open spec fn first_rows(rows: Seq<IssueEventDeltaRow>, cap: nat) -> Seq<IssueEventDeltaRow> {
    if rows.len() > cap {
        rows.take(cap as int)
    } else {
        rows
    }
}

/// From which event on a preview tells, and how many events are read for it.
pub open spec fn reach(mode: PromptMode, cursor: Option<i64>, row_cap: usize) -> (Option<i64>, int) {
    (
        match mode {
            PromptMode::Fresh => None,
            PromptMode::Followup => cursor,
        },
        if row_cap < usize::MAX {
            row_cap + 1
        } else {
            usize::MAX as int
        },
    )
}

/// From which event on a preview tells, and how many events are read for it: a follow-up begins at the
/// cursor of the role, and one event more than the bound shows that there are more.
pub fn preview_reach(mode: PromptMode, cursor: Option<i64>, row_cap: usize) -> (r: (Option<i64>, usize))
    ensures
        (r.0, r.1 as int) == reach(mode, cursor, row_cap),
        r.0 == (match mode {
            PromptMode::Fresh => None,
            PromptMode::Followup => cursor,
        }),
        r.1 == (if row_cap < usize::MAX {
            row_cap + 1
        } else {
            usize::MAX as int
        }),
{
    let after = match mode {
        PromptMode::Fresh => None,
        PromptMode::Followup => cursor,
    };
    let limit: usize = if row_cap < usize::MAX {
        row_cap + 1
    } else {
        usize::MAX
    };
    (after, limit)
}

/// The events that a preview shows, and whether there are more.
pub fn preview_rows(rows: Vec<IssueEventDeltaRow>, row_cap: usize) -> (r: (
    Vec<IssueEventDeltaRow>,
    bool,
))
    ensures
        r.0@ == first_rows(rows@, row_cap as nat),
        r.1 == (rows@.len() > row_cap),
{
    let mut shown = rows;
    let rows_truncated = shown.len() > row_cap;
    if rows_truncated {
        shown.truncate(row_cap);
    }
    proof {
        assert(shown@ =~= first_rows(rows@, row_cap as nat));
    }
    (shown, rows_truncated)
}

/// What a preview tells of the events that it shows, within its bounds: to a fresh session their history,
/// which is given, and to one that goes on what is new in them.
pub fn render_preview_issue_activity(
    mode: PromptMode,
    shown: &Vec<IssueEventDeltaRow>,
    history: &str,
    rows_truncated: bool,
    row_cap: usize,
    byte_cap: usize,
) -> (r: String)
    ensures
        r@ == within_caps(
            match mode {
                PromptMode::Fresh => history@,
                PromptMode::Followup => delta_text(shown@),
            },
            rows_truncated,
            row_cap as nat,
            byte_cap as nat,
        ),
{
    let text = issue_activity(mode, shown, history);
    apply_preview_caps(text, rows_truncated, row_cap, byte_cap)
}

/// What a preview tells of the events of its issue, where that was asked for; else a note in its place.
pub fn preview_activity(mode: PromptMode, rendered: Option<String>) -> (r: String)
    ensures
        r@ == (match (rendered, mode) {
            (Some(t), _) => t@,
            (None, PromptMode::Fresh) => PREVIEW_HISTORY_PLACEHOLDER@,
            (None, PromptMode::Followup) => PREVIEW_DELTA_PLACEHOLDER@,
        }),
{
    match (rendered, mode) {
        (Some(t), _) => t,
        (None, PromptMode::Fresh) => PREVIEW_HISTORY_PLACEHOLDER.to_owned(),
        (None, PromptMode::Followup) => PREVIEW_DELTA_PLACEHOLDER.to_owned(),
    }
}

/// The role and the directive of a preview, by their places in the configuration.
pub fn preview_target(config: &DispatchConfig, role: &str, directive: &str) -> (r: Result<
    (usize, usize),
    String,
>)
    ensures
        ({
            let roles = role_names(role_views(config.roles@));
            let directives = directive_names(directive_views(config.directives@));
            if !has_key(roles, norm(role@)) {
                r matches Err(e) && e@ == "role not configured: "@ + norm(role@)
            } else if !has_key(directives, norm(directive@)) {
                r matches Err(e) && e@ == "directive not configured: "@ + norm(directive@)
            } else {
                r matches Ok(p) && p.0 == first_at(roles, norm(role@)) && p.1 == first_at(
                    directives,
                    norm(directive@),
                )
            }
        }),
{
    let role_name = str_norm(role);
    let directive_name = str_norm(directive);
    let i: usize = match find_role(&config.roles, role_name.as_str()) {
        Some(i) => i,
        None => {
            return Err(cat2("role not configured: ", role_name.as_str()));
        },
    };
    match find_directive(&config.directives, directive_name.as_str()) {
        Some(j) => Ok((i, j)),
        None => Err(cat2("directive not configured: ", directive_name.as_str())),
    }
}

/// What an error says, in place of the error.
pub open spec fn told(r: Result<Seq<char>, Fault>) -> Result<Seq<char>, Seq<char>> {
    match r {
        Ok(t) => Ok(t),
        Err(f) => Err(f.1),
    }
}

/// What an error says, in place of the error.
fn tell(r: Result<String, DispatchError>) -> (t: Result<String, String>)
    ensures
        text_result(t) == told(outcome(r)),
{
    match r {
        Ok(t) => Ok(t),
        Err(e) => Err(e.message()),
    }
}

/// What a preview is of.
pub struct Preview<S> {
    pub role: S,
    pub prompt_file: S,
    pub fresh: bool,
    pub issue_ref: S,
    pub issue_title: S,
    pub issue_body: S,
    pub activity: S,
    pub reading_material: S,
}

/// The view of what a preview is of.
pub open spec fn preview_view(p: Preview<String>) -> Preview<Seq<char>> {
    Preview {
        role: p.role@,
        prompt_file: p.prompt_file@,
        fresh: p.fresh,
        issue_ref: p.issue_ref@,
        issue_title: p.issue_title@,
        issue_body: p.issue_body@,
        activity: p.activity@,
        reading_material: p.reading_material@,
    }
}

/// The part of a preview that tells of the issue.
pub open spec fn issue_preview(
    e: DispatchPromptEnvelopeConfig,
    p: Preview<Seq<char>>,
    file: Result<Seq<char>, Seq<char>>,
) -> Result<Seq<char>, Fault> {
    if p.fresh {
        filled_file(
            file,
            file_name("issue fresh"@, e.issue_fresh_file@),
            seq![
                ("issue_title"@, p.issue_title),
                ("issue_body"@, unless_blank(p.issue_body, "(empty)"@)),
                ("issue_history"@, p.activity),
            ],
        )
    } else {
        filled_file(
            file,
            file_name("issue followup"@, e.issue_followup_file@),
            seq![("issue_title"@, p.issue_title), ("issue_delta"@, p.activity)],
        )
    }
}

/// The part of a preview that tells of the turn.
pub open spec fn turn_preview(
    e: DispatchPromptEnvelopeConfig,
    p: Preview<Seq<char>>,
    file: Result<Seq<char>, Seq<char>>,
) -> Result<Seq<char>, Fault> {
    filled_file(
        file,
        file_name("turn context"@, e.turn_context_file@),
        seq![
            ("actor"@, "preview"@),
            ("issue_ref"@, p.issue_ref),
            ("turn_type"@, turn_type(p.fresh)),
            ("trigger"@, "manual prompt preview"@),
        ],
    )
}

/// The prompt, or what is wrong with the first of its parts that cannot be had.
pub open spec fn previewed(
    e: DispatchPromptEnvelopeConfig,
    acl: Seq<char>,
    p: Preview<Seq<char>>,
    files: PromptFiles,
) -> Result<Seq<char>, Seq<char>> {
    match text_result(files.orders) {
        Err(_) => Err("failed reading prompt "@ + p.prompt_file),
        Ok(t) => match told(filled(t, Seq::empty())) {
            Err(m) => Err(m),
            Ok(orders) => match (if p.fresh {
                told(
                    preamble_of(
                        e.preamble_file@,
                        card_path(e.preamble_file@, p.role),
                        p.role,
                        acl,
                        text_result(files.preamble),
                        text_result(files.role_card),
                    ),
                )
            } else {
                Ok(""@)
            }) {
                Err(m) => Err(m),
                Ok(preamble) => match told(turn_preview(e, p, text_result(files.turn_context))) {
                    Err(m) => Err(m),
                    Ok(dispatch) => match told(issue_preview(e, p, text_result(files.issue))) {
                        Err(m) => Err(m),
                        Ok(issue) => match text_result(files.envelope) {
                            Err(_) => Err("failed reading envelope "@ + envelope_of(e, p.fresh)),
                            Ok(envelope) => told(
                                filled(
                                    envelope,
                                    seq![
                                        ("preamble_md"@, preamble),
                                        ("dispatch_md"@, dispatch),
                                        ("reading_material_md"@, p.reading_material),
                                        ("orders_md"@, orders),
                                        ("issue_md"@, issue),
                                    ],
                                ),
                            ),
                        },
                    },
                },
            },
        },
    }
}

/// The part of a preview that tells of the issue.
fn issue_part_of(
    e: &DispatchPromptEnvelopeConfig,
    p: &Preview<String>,
    file: &Result<String, String>,
) -> (r: Result<String, DispatchError>)
    ensures
        outcome(r) == issue_preview(*e, preview_view(*p), text_result(*file)),
{
    if p.fresh {
        let body = if str_blank(p.issue_body.as_str()) {
            "(empty)"
        } else {
            p.issue_body.as_str()
        };
        let values = [
            ("issue_title", p.issue_title.as_str()),
            ("issue_body", body),
            ("issue_history", p.activity.as_str()),
        ];
        proof {
            assert(pairs(values@) =~= seq![
                ("issue_title"@, p.issue_title@),
                ("issue_body"@, unless_blank(p.issue_body@, "(empty)"@)),
                ("issue_history"@, p.activity@),
            ]);
        }
        render_prompt_file(e.issue_fresh_file.as_str(), file, &values, "issue fresh")
    } else {
        let values = [
            ("issue_title", p.issue_title.as_str()),
            ("issue_delta", p.activity.as_str()),
        ];
        proof {
            assert(pairs(values@) =~= seq![
                ("issue_title"@, p.issue_title@),
                ("issue_delta"@, p.activity@),
            ]);
        }
        render_prompt_file(e.issue_followup_file.as_str(), file, &values, "issue followup")
    }
}

/// The part of a preview that tells of the turn.
fn turn_part_of(
    e: &DispatchPromptEnvelopeConfig,
    p: &Preview<String>,
    file: &Result<String, String>,
) -> (r: Result<String, DispatchError>)
    ensures
        outcome(r) == turn_preview(*e, preview_view(*p), text_result(*file)),
{
    let kind = if p.fresh {
        "first turn in this issue"
    } else {
        "follow-up turn in an existing issue session"
    };
    let values = [
        ("actor", "preview"),
        ("issue_ref", p.issue_ref.as_str()),
        ("turn_type", kind),
        ("trigger", "manual prompt preview"),
    ];
    proof {
        assert(pairs(values@) =~= seq![
            ("actor"@, "preview"@),
            ("issue_ref"@, p.issue_ref@),
            ("turn_type"@, turn_type(p.fresh)),
            ("trigger"@, "manual prompt preview"@),
        ]);
    }
    render_prompt_file(e.turn_context_file.as_str(), file, &values, "turn context")
}

/// The prompt that a dispatch would get.
pub fn prompt_preview_command(
    e: &DispatchPromptEnvelopeConfig,
    rank_acl: &DispatchRankAclConfig,
    p: &Preview<String>,
    files: &PromptFiles,
) -> (r: Result<String, String>)
    requires
        rank_acl.wf(),
    ensures
        text_result(r) == previewed(*e, rank_acl.summary(p.role@), preview_view(*p), *files),
{
    let orders = match &files.orders {
        Err(_) => {
            return Err(cat2("failed reading prompt ", p.prompt_file.as_str()));
        },
        Ok(t) => {
            let none: [(&str, &str); 0] = [];
            proof {
                assert(pairs(none@) =~= Seq::empty());
            }
            match tell(render_prompt(t.as_str(), &none)) {
                Ok(x) => x,
                Err(m) => {
                    return Err(m);
                },
            }
        },
    };
    let preamble = if p.fresh {
        match tell(
            render_fresh_preamble(e, rank_acl, p.role.as_str(), &files.preamble, &files.role_card),
        ) {
            Ok(x) => x,
            Err(m) => {
                return Err(m);
            },
        }
    } else {
        "".to_owned()
    };
    let dispatch = match tell(turn_part_of(e, p, &files.turn_context)) {
        Ok(x) => x,
        Err(m) => {
            return Err(m);
        },
    };
    let issue = match tell(issue_part_of(e, p, &files.issue)) {
        Ok(x) => x,
        Err(m) => {
            return Err(m);
        },
    };
    match &files.envelope {
        Err(_) => {
            let path = if p.fresh {
                e.fresh_envelope.as_str()
            } else {
                e.followup_envelope.as_str()
            };
            Err(cat2("failed reading envelope ", path))
        },
        Ok(envelope) => {
            let values = [
                ("preamble_md", preamble.as_str()),
                ("dispatch_md", dispatch.as_str()),
                ("reading_material_md", p.reading_material.as_str()),
                ("orders_md", orders.as_str()),
                ("issue_md", issue.as_str()),
            ];
            proof {
                assert(pairs(values@) =~= seq![
                    ("preamble_md"@, preamble@),
                    ("dispatch_md"@, dispatch@),
                    ("reading_material_md"@, p.reading_material@),
                    ("orders_md"@, orders@),
                    ("issue_md"@, issue@),
                ]);
            }
            tell(render_prompt(envelope.as_str(), &values))
        },
    }
}

/// What a preview shows is no longer than its bound and the notes on it.
pub proof fn law_previews_are_bounded(text: Seq<char>, rows_cut: bool, row_cap: nat, byte_cap: nat)
    ensures
        byte_len(capped(text, byte_cap).0) <= byte_cap,
        capped(text, byte_cap).0.is_prefix_of(text),
        !rows_cut && byte_len(text) <= byte_cap ==> within_caps(text, rows_cut, row_cap, byte_cap)
            == text,
{
    law_fit_is_the_most(text, byte_cap);
    if byte_len(text) <= byte_cap {
        assert(text.take(fit(text, byte_cap) as int) =~= text);
        assert(text + (Seq::<char>::empty() + Seq::<char>::empty()) =~= text);
    }
}

/// What is cut off is what does not fit: one more character would be more than the bound, and nothing is
/// cut off a text that is within it. A note tells of each bound that was reached.
pub proof fn law_previews_are_cut_as_late_as_possible(
    text: Seq<char>,
    rows_cut: bool,
    row_cap: nat,
    byte_cap: nat,
)
    ensures
        ({
            let c = capped(text, byte_cap);
            &&& c.0.len() < text.len() ==> byte_len(text.take(c.0.len() as int + 1)) > byte_cap
            &&& c.1 <==> byte_len(text) > byte_cap
            &&& byte_len(text) > byte_cap && rows_cut ==> within_caps(text, rows_cut, row_cap, byte_cap)
                == c.0 + ("\n\n(note: preview row cap hit at "@ + decimal(row_cap)
                + " events; raise --preview-row-cap for more)"@
                + "\n\n(note: preview byte cap hit at "@ + decimal(byte_cap)
                + " bytes; raise --preview-byte-cap for more)"@)
            &&& byte_len(text) <= byte_cap && rows_cut ==> within_caps(text, rows_cut, row_cap, byte_cap)
                == text + ("\n\n(note: preview row cap hit at "@ + decimal(row_cap)
                + " events; raise --preview-row-cap for more)"@)
            &&& byte_len(text) > byte_cap && !rows_cut ==> within_caps(text, rows_cut, row_cap, byte_cap)
                == c.0 + ("\n\n(note: preview byte cap hit at "@ + decimal(byte_cap)
                + " bytes; raise --preview-byte-cap for more)"@)
        }),
{
    law_fit_is_the_most(text, byte_cap);
    if byte_len(text) <= byte_cap {
        assert(text.take(fit(text, byte_cap) as int) =~= text);
    }
    let r = "\n\n(note: preview row cap hit at "@ + decimal(row_cap)
        + " events; raise --preview-row-cap for more)"@;
    let b = "\n\n(note: preview byte cap hit at "@ + decimal(byte_cap)
        + " bytes; raise --preview-byte-cap for more)"@;
    assert(r + Seq::<char>::empty() =~= r);
    assert(Seq::<char>::empty() + b =~= b);
    assert(r + b =~= r + "\n\n(note: preview byte cap hit at "@ + decimal(byte_cap)
        + " bytes; raise --preview-byte-cap for more)"@);
}

/// A preview shows the first events, as many as it may.
pub proof fn law_the_first_events_are_shown(rows: Seq<IssueEventDeltaRow>, cap: nat)
    ensures
        first_rows(rows, cap).is_prefix_of(rows),
        rows.len() <= cap ==> first_rows(rows, cap) == rows,
        rows.len() > cap ==> first_rows(rows, cap).len() == cap,
{
}

/// A preview is what a prompt would be: its envelope with the same parts, told to be asked for by a
/// preview.
pub proof fn law_previews_are_filled_as_prompts(
    e: DispatchPromptEnvelopeConfig,
    acl: Seq<char>,
    p: Preview<Seq<char>>,
    files: PromptFiles,
    orders: Seq<char>,
    preamble: Seq<char>,
    turn: Seq<char>,
    issue: Seq<char>,
)
    requires
        files.orders is Ok,
        files.turn_context is Ok,
        files.issue is Ok,
        files.envelope is Ok,
        p.fresh ==> files.preamble is Ok && files.role_card is Ok,
        crate::template::rendered(files.orders->Ok_0@, Seq::empty()) == Ok::<Seq<char>, Seq<char>>(orders),
        p.fresh ==> crate::template::rendered(
            files.preamble->Ok_0@,
            seq![("role_card_md"@, files.role_card->Ok_0@ + "\n\n"@ + acl)],
        ) == Ok::<Seq<char>, Seq<char>>(preamble),
        !p.fresh ==> preamble == ""@,
        crate::template::rendered(
            files.turn_context->Ok_0@,
            seq![
                ("actor"@, "preview"@),
                ("issue_ref"@, p.issue_ref),
                (
                    "turn_type"@,
                    if p.fresh {
                        "first turn in this issue"@
                    } else {
                        "follow-up turn in an existing issue session"@
                    },
                ),
                ("trigger"@, "manual prompt preview"@),
            ],
        ) == Ok::<Seq<char>, Seq<char>>(turn),
        p.fresh ==> crate::template::rendered(
            files.issue->Ok_0@,
            seq![
                ("issue_title"@, p.issue_title),
                (
                    "issue_body"@,
                    if crate::text::trim(p.issue_body).len() == 0 {
                        "(empty)"@
                    } else {
                        p.issue_body
                    },
                ),
                ("issue_history"@, p.activity),
            ],
        ) == Ok::<Seq<char>, Seq<char>>(issue),
        !p.fresh ==> crate::template::rendered(
            files.issue->Ok_0@,
            seq![("issue_title"@, p.issue_title), ("issue_delta"@, p.activity)],
        ) == Ok::<Seq<char>, Seq<char>>(issue),
    ensures
        previewed(e, acl, p, files) == (match crate::template::rendered(
            files.envelope->Ok_0@,
            seq![
                ("preamble_md"@, preamble),
                ("dispatch_md"@, turn),
                ("reading_material_md"@, p.reading_material),
                ("orders_md"@, orders),
                ("issue_md"@, issue),
            ],
        ) {
            Ok(t) => Ok::<Seq<char>, Seq<char>>(t),
            Err(m) => Err("prompt template failure: "@ + m),
        }),
{
}

/// A preview of a fresh session tells from the beginning, and one that goes on from the cursor; one event
/// more than it shows is read, so that it is seen whether there are more.
pub proof fn law_previews_read_one_event_more(cursor: Option<i64>, row_cap: usize)
    ensures
        reach(PromptMode::Fresh, cursor, row_cap).0 is None,
        reach(PromptMode::Followup, cursor, row_cap).0 == cursor,
        row_cap < usize::MAX ==> reach(PromptMode::Fresh, cursor, row_cap).1 == row_cap + 1 && reach(
            PromptMode::Followup,
            cursor,
            row_cap,
        ).1 == row_cap + 1,
{
}

} // verus!
