use orchd::history::{issue_history, summarize_issue_delta, DeltaRow, IssueEventDeltaRow};
use orchd::cli::PromptMode;
use orchd::preview::{
    apply_preview_caps, preview_activity, preview_reach, preview_rows, render_preview_issue_activity,
    truncate_preview_bytes, PREVIEW_DELTA_PLACEHOLDER, PREVIEW_HISTORY_PLACEHOLDER,
};

#[test]
fn truncate_preview_bytes_obeys_utf8_boundaries() {
    let (truncated, clipped) = truncate_preview_bytes("ab\u{00e9}", 3);
    assert!(clipped);
    assert_eq!(truncated, "ab");
}

#[test]
fn apply_preview_caps_appends_truncation_notes() {
    let rendered = "0123456789".to_string();
    let capped = apply_preview_caps(rendered, true, 3, 5);
    assert!(capped.starts_with("01234"));
    assert!(capped.contains("preview row cap hit at 3 events"));
    assert!(capped.contains("preview byte cap hit at 5 bytes"));
}

#[test]
fn apply_preview_caps_keeps_short_text_unchanged() {
    let rendered = "short text".to_string();
    assert_eq!(apply_preview_caps(rendered.clone(), false, 10, 64), rendered);
}

fn row(text: &str) -> IssueEventDeltaRow {
    DeltaRow {
        event_type: "issue_comment".to_string(),
        actor_login: Some(" ".to_string()),
        event_text: Some(text.to_string()),
        received_at: "2024-01-01T00:00:00Z".to_string(),
        source_created_at: Some("2023-12-31T00:00:00Z".to_string()),
    }
}

#[test]
fn caps_that_are_met_are_not_noted() {
    let (whole, clipped) = truncate_preview_bytes("ab\u{00e9}", 4);
    assert!(!clipped);
    assert_eq!(whole, "ab\u{00e9}");
    let (none, clipped) = truncate_preview_bytes("\u{00e9}", 1);
    assert!(clipped);
    assert_eq!(none, "");
    assert_eq!(
        apply_preview_caps("01234".to_string(), true, 3, 5),
        "01234\n\n(note: preview row cap hit at 3 events; raise --preview-row-cap for more)"
    );
}

#[test]
fn activity_is_cut_to_its_rows() {
    let (shown, more) = preview_rows(vec![row("a"), row("b")], 1);
    assert!(more && shown.len() == 1);
    let text = render_preview_issue_activity(PromptMode::Followup, &shown, "old", more, 1, 1000);
    assert_eq!(
        text,
        "- [2023-12-31T00:00:00Z] unknown issue_comment: a\n\n(note: preview row cap hit at 1 events; raise --preview-row-cap for more)"
    );
    let text = render_preview_issue_activity(PromptMode::Fresh, &shown, "old", more, 1, 1000);
    assert_eq!(
        text,
        "old\n\n(note: preview row cap hit at 1 events; raise --preview-row-cap for more)"
    );
    let text = render_preview_issue_activity(PromptMode::Followup, &vec![], "old", false, 1, 1000);
    assert_eq!(text, "(no new issue events since last handled dispatch)");
}

#[test]
fn previews_reach_back_to_the_cursor() {
    assert_eq!(preview_reach(PromptMode::Followup, Some(4), 10), (Some(4), 11));
    assert_eq!(preview_reach(PromptMode::Fresh, Some(4), usize::MAX), (None, usize::MAX));
    assert_eq!(preview_activity(PromptMode::Fresh, None), PREVIEW_HISTORY_PLACEHOLDER);
    assert_eq!(preview_activity(PromptMode::Followup, None), PREVIEW_DELTA_PLACEHOLDER);
    assert_eq!(preview_activity(PromptMode::Followup, Some("news".to_string())), "news");
}

#[test]
fn long_events_are_shortened() {
    let long = "x".repeat(221);
    assert_eq!(issue_history(&vec![]), "");
    assert_eq!(issue_history(&vec![row("x")]), summarize_issue_delta(&vec![row("x")]));
    let text = summarize_issue_delta(&vec![row(&long), row(" two\nlines ")]);
    let expected = format!(
        "- [2023-12-31T00:00:00Z] unknown issue_comment: {}...\n- [2023-12-31T00:00:00Z] unknown issue_comment: two lines",
        "x".repeat(220)
    );
    assert_eq!(text, expected);
}
