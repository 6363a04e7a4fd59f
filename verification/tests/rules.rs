use orchd::acl_compile::{compile_rank_acl_config, CardFile, PolicyEntry, RankAclFile, RoleCard};
use orchd::admission::{codex_config_has_profile, usable_profile};
use orchd::envelopes::DispatchPromptEnvelopeConfig;
use orchd::paths::{
    expand_tilde_path, is_absolute, join_path, path_eq, path_parent, resolve_after_fallback,
    resolve_after_probe, resolve_config_path, resolve_dispatch_config_path, swarm_home_dir,
    ConfigPathStep,
};
use orchd::rank_acl::{
    parse_acl_directive_set, parse_role_card_rank, AclPolicyFile, DispatchRank,
    DispatchRankAclConfig,
};
use orchd::template::render_prompt;
use orchd::text::{
    byte_len_capped, eq_ignore_case, i64_text, parse_unsigned, str_lines, str_norm, str_replaced,
    str_split_once, str_trim, str_words,
};
use orchd::triggers::{
    compile_trigger_action, legacy_trigger_pack, DispatchTriggerClass,
    DispatchTriggerDirectiveSource, DispatchTriggerRoleSource, TriggerActionFile,
};

fn s(t: &str) -> String {
    t.to_string()
}

fn list(v: &[&str]) -> Vec<String> {
    v.iter().map(|x| x.to_string()).collect()
}

fn acl(enabled: bool) -> DispatchRankAclConfig {
    let policy = |key: &str, own: &[&str], delegation: &[&str]| PolicyEntry {
        key: s(key),
        policy: AclPolicyFile {
            own_directives: Some(list(own)),
            delegation_directives: Some(list(delegation)),
        },
    };
    let card = |role: &str, rank: &str| RoleCard {
        role: s(role),
        file: CardFile::Text(format!("# {role}\n\n- {rank}\n")),
    };
    let raw = RankAclFile {
        enabled,
        ranks: vec![
            policy("OF-8", &["reply", "design"], &["reply", "impl"]),
            policy("OF-4", &["reply", "impl"], &["reply"]),
        ],
        role_overrides: vec![],
    };
    let envelopes = DispatchPromptEnvelopeConfig {
        preamble_file: s("/p/preamble.md"),
        fresh_envelope: s("/p/a.md"),
        followup_envelope: s("/p/b.md"),
        turn_context_file: s("/p/c.md"),
        issue_fresh_file: s("/p/d.md"),
        issue_followup_file: s("/p/e.md"),
    };
    let cards = vec![card("codex-orch", "OF-8"), card("codex-dev", "OF-4"), card("codex-ops", "OF-4")];
    match compile_rank_acl_config(
        "/c.toml",
        &raw,
        &envelopes,
        &list(&["codex-orch", "codex-dev", "codex-ops"]),
        &vec![],
        &cards,
    ) {
        Ok(a) => a,
        Err(e) => panic!("{e}"),
    }
}

#[test]
fn directives_travel_downrank() {
    let a = acl(true);
    assert!(a.assert_actor_can_dispatch("Codex-Orch", "codex-dev", "impl").is_ok());
    assert_eq!(
        a.assert_actor_can_dispatch("codex-dev", "codex-ops", "impl"),
        Err(s("actor 'codex-dev' rank OF-4 cannot delegate directive 'impl' to role 'codex-ops' rank OF-4 (requires strict downrank; reply exceptions: uprank and self-edge)"))
    );
    assert!(a.assert_actor_can_dispatch("codex-dev", "codex-orch", "reply").is_ok());
    assert!(a.assert_actor_can_dispatch("codex-dev", "codex-dev", "reply").is_ok());
    assert!(a.assert_actor_can_dispatch("codex-dev", "codex-ops", "reply").is_err());
    assert_eq!(
        a.assert_actor_can_dispatch("codex-orch", "codex-dev", "design"),
        Err(s("actor 'codex-orch' rank OF-8 is not permitted to delegate directive 'design'"))
    );
    assert_eq!(
        a.assert_actor_can_dispatch("who", "codex-dev", "impl"),
        Err(s("actor 'who' has no rank ACL policy"))
    );
    assert_eq!(
        a.assert_actor_can_dispatch("codex-orch", "who", "impl"),
        Err(s("target role 'who' has no rank ACL policy"))
    );
    assert_eq!(
        a.assert_target_can_execute("codex-dev", "design"),
        Err(s("target role 'codex-dev' rank OF-4 is not permitted to execute directive 'design'"))
    );
    assert!(a.assert_target_can_execute("codex-dev", " IMPL ").is_ok());
    assert!(acl(false).assert_actor_can_dispatch("who", "what", "x").is_ok());
    assert!(a.has_role_policy("codex-dev"));
    assert!(!a.has_role_policy("who"));
}

#[test]
fn ranks_are_summed_up() {
    assert_eq!(acl(false).acl_summary_markdown("codex-dev"), "## Rank ACL Envelope\n- disabled");
    let text = acl(true).acl_summary_markdown(" Codex-Dev ");
    assert!(text.starts_with("## Rank ACL Envelope (Delegation + Execution Scope v2)\n- Delegation edge policy: strict downrank only.\n"));
    assert!(text.contains("\n- rank OF-8: own=design, reply; delegation=impl, reply\n"));
    assert!(text.ends_with("\n- effective for codex-dev (OF-4): own=impl, reply; delegation=reply"));
    assert!(acl(true).acl_summary_markdown("who").ends_with("\n- effective for who: unavailable"));
}

#[test]
fn ranks_are_read() {
    match DispatchRank::parse(" of-8 ") {
        Ok(r) => assert_eq!(r.text(), "OF-8"),
        Err(e) => panic!("{e}"),
    }
    assert!(DispatchRank::parse("x").is_err());
    assert_eq!(parse_role_card_rank("# r\n\n- OF-6\n").map(|r| r.text()), Some(s("OF-6")));
    assert!(parse_role_card_rank("# r\n").is_none());
    assert!(parse_acl_directive_set("/c", "x", &list(&["reply", "reply", "impl"])).is_ok());
    assert!(parse_acl_directive_set("/c", "x", &list(&["dance"])).is_err());
}

fn action(
    directive: Option<&str>,
    from: Option<&str>,
    role: Option<&str>,
    role_from: Option<&str>,
    reason: Option<&str>,
) -> TriggerActionFile {
    TriggerActionFile {
        directive: directive.map(s),
        directive_from: from.map(s),
        target_role: role.map(s),
        target_role_from: role_from.map(s),
        reason_code: reason.map(s),
    }
}

#[test]
fn trigger_actions_name_what_is_configured() {
    let compile = |a: TriggerActionFile| {
        compile_trigger_action("/c", "t", &a, &list(&["reply"]), &list(&["codex-dev"]))
    };
    let said = |a: TriggerActionFile| match compile(a) {
        Ok(_) => panic!("expected an error"),
        Err(e) => e,
    };
    match compile(action(Some(" REPLY "), None, None, Some("assignee"), None)) {
        Ok(a) => {
            assert!(matches!(a.directive, DispatchTriggerDirectiveSource::Literal(d) if d == "reply"));
            assert!(matches!(a.target_role, DispatchTriggerRoleSource::SingleAssignee));
            assert_eq!(a.reason_code, "registered_trigger:t");
        }
        Err(e) => panic!("{e}"),
    }
    let role = Some("codex-dev");
    let at = "dispatch config /c trigger 't'";
    assert_eq!(said(action(None, None, role, None, None)), format!("{at} action is missing directive source"));
    assert_eq!(said(action(Some(" "), None, role, None, None)), format!("{at} has empty action.directive"));
    assert_eq!(
        said(action(Some("dance"), None, role, None, None)),
        format!("{at} references unknown directive 'dance'")
    );
    assert_eq!(
        said(action(Some("impl"), None, role, None, None)),
        format!("{at} references unconfigured directive 'impl'")
    );
    assert_eq!(
        said(action(None, Some("guess"), role, None, None)),
        format!("{at} has unsupported action.directive_from 'guess'; expected 'parsed'")
    );
    assert_eq!(
        said(action(Some("reply"), Some("parsed"), role, None, None)),
        format!("{at} action must set exactly one of directive or directive_from")
    );
    let reply = Some("reply");
    assert_eq!(said(action(reply, None, None, None, None)), format!("{at} action is missing target role source"));
    assert_eq!(said(action(reply, None, Some(""), None, None)), format!("{at} has empty action.target_role"));
    assert_eq!(said(action(reply, None, Some("z"), None, None)), format!("{at} references unknown role 'z'"));
    assert_eq!(
        said(action(reply, None, None, Some("guess"), None)),
        format!("{at} has unsupported action.target_role_from 'guess'; expected 'parsed' or 'assignee'")
    );
    assert_eq!(
        said(action(reply, None, role, Some("parsed"), None)),
        format!("{at} action must set exactly one of target_role or target_role_from")
    );
    assert_eq!(
        said(action(reply, None, role, None, Some("mine"))),
        format!("{at} reason_code 'mine' must start with 'registered_trigger:'")
    );
}

#[test]
fn the_old_triggers_are_three() {
    let pack = legacy_trigger_pack();
    let ids: Vec<&str> = pack.iter().map(|t| t.id.as_str()).collect();
    assert_eq!(
        ids,
        vec!["legacy.explicit.issue_comment", "legacy.explicit.issues", "legacy.assignee.reply"]
    );
    assert_eq!(pack[1].matcher.actions, vec!["opened", "edited"]);
    assert!(pack[2].class == DispatchTriggerClass::AssigneeReply);
    assert_eq!(pack[0].class.precedence_rank(), 3);
    assert_eq!(pack[2].class.precedence_rank(), 2);
    assert_eq!(DispatchTriggerClass::Registered.precedence_rank(), 1);
    assert!(pack[2].apply_guardrails && !pack[0].apply_guardrails);
}

#[test]
fn profiles_must_be_configured() {
    let config = Some(s("[profiles.fast]\nmodel = \"x\"\n"));
    assert!(codex_config_has_profile("fast", &config));
    assert!(!codex_config_has_profile("slow", &config));
    assert!(!codex_config_has_profile("fast", &None));
    assert!(!codex_config_has_profile("fast", &Some(s("not toml ["))));
    assert_eq!(usable_profile(Some(s("fast")), true), Some(s("fast")));
    assert_eq!(usable_profile(Some(s("fast")), false), None);
    assert_eq!(usable_profile(None, true), None);
}

#[test]
fn paths_are_resolved() {
    let home = Some(s("/h"));
    assert!(is_absolute("/a") && !is_absolute("a"));
    assert_eq!(join_path("/a", "b"), "/a/b");
    assert_eq!(join_path("/a", "/b"), "/b");
    assert_eq!(path_parent("/a/b"), Some(s("/a")));
    assert_eq!(path_parent("/"), None);
    assert_eq!(expand_tilde_path("~/x", &home), Ok(s("/h/x")));
    assert_eq!(expand_tilde_path("/x", &None), Ok(s("/x")));
    assert!(expand_tilde_path("~/x", &None).is_err());
    assert_eq!(resolve_config_path("/base", "x", &home), Ok(s("/base/x")));
    assert_eq!(resolve_config_path("/base", "~/x", &home), Ok(s("/h/x")));
    assert!(path_eq("/a//b/./c", "/a/b/c"));
    assert!(!path_eq("/a/b", "/a/c"));
    assert_eq!(swarm_home_dir(&Some(s("/swarm")), &home), Ok(s("/swarm")));
    match resolve_dispatch_config_path("config/orchd-dispatch.toml", &home) {
        Ok(ConfigPathStep::Probe(p)) => assert_eq!(p, "config/orchd-dispatch.toml"),
        _ => panic!("the path is probed"),
    }
    match resolve_after_probe("config/orchd-dispatch.toml", "config/orchd-dispatch.toml", true, &None, &home) {
        Ok(ConfigPathStep::Settled(p)) => assert_eq!(p, "config/orchd-dispatch.toml"),
        _ => panic!("the path is there"),
    }
    assert_eq!(resolve_after_fallback("a", "b", true), "b");
    assert_eq!(resolve_after_fallback("a", "b", false), "a");
}

#[test]
fn texts_are_taken_apart() {
    assert_eq!(str_trim("\u{3000} a \n"), "a");
    assert_eq!(str_norm(" AbÄ "), "abÄ");
    assert!(eq_ignore_case("OPEN", "open"));
    assert_eq!(str_lines("a\r\nb\n\nc"), "a\r\nb\n\nc".lines().collect::<Vec<_>>());
    assert_eq!(str_words(" a  b\tc "), vec!["a", "b", "c"]);
    assert_eq!(i64_text(i64::MIN), i64::MIN.to_string());
    assert_eq!(parse_unsigned("+17", u64::MAX), Some(17));
    assert_eq!(parse_unsigned("256", 255), None);
    assert_eq!(parse_unsigned("", 255), None);
    assert_eq!(byte_len_capped("aä€", 100), 6);
    assert_eq!(str_split_once("a=b=c", '='), Some(("a", "b=c")));
    assert_eq!(str_replaced("aaa", "aa", "b"), "ba");
    match render_prompt("{{a}}-{{b}}", &[("a", "{{b}}"), ("b", "x")]) {
        Ok(t) => assert_eq!(t, "{{b}}-x"),
        Err(e) => panic!("{}", e.message()),
    }
}
