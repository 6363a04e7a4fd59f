use orchd::webhook::{decide, parse_directive, EventContext};

fn comment(text: &str) -> EventContext {
    EventContext {
        repo_full_name: "main/orchd-debug".to_string(),
        issue_number: Some(1),
        actor_login: Some("main".to_string()),
        text: Some(text.to_string()),
        source_comment_id: None,
        source_created_at: None,
    }
}

#[test]
fn owner_comment_without_directive_is_ignored() {
    let context = comment("just checking in");
    let decision = decide("issue_comment", Some(&context));
    assert_eq!(decision.decision, "ignored");
    assert_eq!(decision.reason_code, "no_directive");
    assert!(!decision.would_dispatch);
}

#[test]
fn explicit_directive_is_still_accepted() {
    let context = comment("@codex-orch poke");
    let decision = decide("issue_comment", Some(&context));
    assert_eq!(decision.decision, "accepted");
    assert_eq!(decision.reason_code, "explicit_directive");
    assert_eq!(decision.directive.as_deref(), Some("poke"));
    assert_eq!(decision.target_role.as_deref(), Some("codex-orch"));
    assert!(decision.would_dispatch);
}

#[test]
fn codex_alias_maps_to_orch_role() {
    let parsed = parse_directive("@codex poke").expect("directive should parse");
    assert_eq!(parsed.role, "codex-orch");
    assert_eq!(parsed.directive, "poke");
}

#[test]
fn other_events_are_not_supported() {
    let context = comment("@codex-orch poke");
    let decision = decide("release", Some(&context));
    assert_eq!(decision.reason_code, "unsupported_event");
    assert!(!decision.would_dispatch);
    let decision = decide("issues", None);
    assert_eq!(decision.reason_code, "missing_context");
    assert!(!decision.would_dispatch);
}
