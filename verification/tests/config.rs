use orchd::acl_compile::{CardFile, PolicyEntry, RankAclFile, RoleCard};
use orchd::config_load::{
    find_role, load_dispatch_config, DispatchConfig, DispatchConfigFile, DispatchDirectiveConfig,
    DispatchNotificationsConfig, DispatchRepoBindingConfig, DispatchTriggerGuardrailsConfig, RoleFile,
};
use orchd::defaults::{
    default_codex_bin, default_forgejoctl_bin, default_issue_followup_file, default_issue_fresh_file,
    default_legacy_triggers, default_notify_app_name, default_notify_phases, default_notify_poll_sec,
    default_notify_send_bin, default_rank_acl_enabled, default_timeout_sec,
    default_trigger_cooldown_sec, default_trigger_deny_self_loop, default_trigger_depth,
    default_trigger_window_limit, default_trigger_window_sec, default_turn_context_file,
    default_watch_login,
};
use orchd::digest::sha256_hex;
use orchd::envelopes::DispatchPromptEnvelopeConfig;
use orchd::rank_acl::AclPolicyFile;
use orchd::reload::{DispatchConfigLive, ReloadStep, Reloaded};
use orchd::triggers::{
    DispatchTriggerActorGuard, DispatchTriggerAssigneeGuard, DispatchTriggerDirectiveGuard,
    DispatchTriggerGuards, TriggerActionFile, TriggerFile,
};

const PATH: &str = "/srv/cfg/dispatch.toml";

fn role(name: &str, token_file: &str) -> RoleFile {
    RoleFile {
        name: name.to_string(),
        codex_bin: default_codex_bin(),
        codex_role_arg: None,
        forgejo_login: None,
        token_file: token_file.to_string(),
    }
}

fn directive(name: &str, role: &str) -> DispatchDirectiveConfig {
    DispatchDirectiveConfig {
        name: name.to_string(),
        role: role.to_string(),
        prompt_file: format!("/srv/cfg/prompts/orders/orchd-{name}.md"),
        timeout_sec: default_timeout_sec(),
    }
}

fn card(role: &str, text: &str) -> RoleCard {
    RoleCard { role: role.to_string(), file: CardFile::Text(text.to_string()) }
}

fn policy(key: &str, own: &[&str], delegation: &[&str]) -> PolicyEntry {
    PolicyEntry {
        key: key.to_string(),
        policy: AclPolicyFile {
            own_directives: Some(own.iter().map(|d| d.to_string()).collect()),
            delegation_directives: Some(delegation.iter().map(|d| d.to_string()).collect()),
        },
    }
}

fn file(roles: Vec<RoleFile>, directives: Vec<DispatchDirectiveConfig>) -> DispatchConfigFile {
    DispatchConfigFile {
        version: 1,
        allowed_actors: vec!["main".to_string()],
        prompt_envelopes: DispatchPromptEnvelopeConfig {
            preamble_file: "/srv/cfg/prompts/orchd-preamble.md".to_string(),
            fresh_envelope: "/srv/cfg/prompts/orchd-envelope-fresh.md".to_string(),
            followup_envelope: "/srv/cfg/prompts/orchd-envelope-followup.md".to_string(),
            turn_context_file: default_turn_context_file(),
            issue_fresh_file: default_issue_fresh_file(),
            issue_followup_file: default_issue_followup_file(),
        },
        notifications: DispatchNotificationsConfig {
            enabled: false,
            poll_sec: default_notify_poll_sec(),
            phases: default_notify_phases(),
            app_name: default_notify_app_name(),
            watch_login: default_watch_login(),
            notify_send_bin: default_notify_send_bin(),
        },
        rank_acl: RankAclFile {
            enabled: default_rank_acl_enabled(),
            ranks: vec![],
            role_overrides: vec![],
        },
        roles,
        control_plane_token_file: None,
        directives,
        repo_bindings: vec![],
        legacy_triggers: false,
        trigger_guardrails: DispatchTriggerGuardrailsConfig {
            max_depth_per_issue: default_trigger_depth(),
            max_dispatches_per_window: default_trigger_window_limit(),
            window_sec: default_trigger_window_sec(),
            cooldown_sec: default_trigger_cooldown_sec(),
            deny_immediate_self_loop: default_trigger_deny_self_loop(),
        },
        triggers: vec![],
        forgejoctl_bin: default_forgejoctl_bin(),
    }
}

fn load(file: &DispatchConfigFile, cards: Vec<RoleCard>) -> Result<DispatchConfig, String> {
    load_dispatch_config(PATH, file, &Some("/home/main".to_string()), &cards)
}

fn refusal(file: &DispatchConfigFile, cards: Vec<RoleCard>) -> String {
    match load(file, cards) {
        Ok(_) => panic!("config should fail"),
        Err(e) => e,
    }
}

fn accepted(file: &DispatchConfigFile, cards: Vec<RoleCard>) -> DispatchConfig {
    match load(file, cards) {
        Ok(c) => c,
        Err(e) => panic!("config should load: {e}"),
    }
}

fn main_card() -> RoleCard {
    card("main", "# main role card\n\n- OF-10\n")
}

#[test]
fn role_card_file_for_uses_roles_subdir_next_to_preamble() {
    let envelopes = DispatchPromptEnvelopeConfig {
        preamble_file: "/tmp/prompts/orchd-preamble.md".to_string(),
        fresh_envelope: "/tmp/prompts/orchd-envelope-fresh.md".to_string(),
        followup_envelope: "/tmp/prompts/orchd-envelope-followup.md".to_string(),
        turn_context_file: "/tmp/prompts/orchd-turn-context.md".to_string(),
        issue_fresh_file: "/tmp/prompts/orchd-issue-fresh.md".to_string(),
        issue_followup_file: "/tmp/prompts/orchd-issue-followup.md".to_string(),
    };
    let card = envelopes.role_card_file_for("codex-orch");
    assert_eq!(card, "/tmp/prompts/roles/codex-orch.md");
}

#[test]
fn load_dispatch_config_rejects_missing_role_card() {
    let f = file(
        vec![role("codex-orch", "/srv/cfg/token.txt")],
        vec![directive("design", "codex-orch")],
    );
    assert!(refusal(&f, vec![]).contains("missing role card for role codex-orch"));
}

#[test]
fn load_dispatch_config_accepts_present_role_card() {
    let mut f = file(
        vec![role("codex-orch", "/srv/cfg/token.txt")],
        vec![directive("design", "codex-orch"), directive("reply", "codex-orch")],
    );
    f.legacy_triggers = default_legacy_triggers();
    let config = accepted(&f, vec![card("codex-orch", "# codex-orch role card\n\n- OF-8\n"), main_card()]);
    assert!(find_role(&config.roles, "codex-orch").is_some());
    assert!(config.rank_acl.assert_actor_can_dispatch("main", "codex-orch", "design").is_ok());
    assert!(!config.triggers.is_empty());
}

#[test]
fn load_dispatch_config_rejects_trigger_with_unknown_directive() {
    let mut f = file(
        vec![role("codex-orch", "/srv/cfg/token.txt")],
        vec![directive("reply", "codex-orch")],
    );
    f.triggers = vec![TriggerFile {
        id: "bad".to_string(),
        event: "issues".to_string(),
        actions: vec!["closed".to_string()],
        priority: 0,
        guards: DispatchTriggerGuards {
            directive: DispatchTriggerDirectiveGuard::Any,
            assignee: DispatchTriggerAssigneeGuard::Any,
            actor: DispatchTriggerActorGuard::Any,
        },
        action: TriggerActionFile {
            directive: Some("debrief".to_string()),
            directive_from: None,
            target_role: Some("codex-orch".to_string()),
            target_role_from: None,
            reason_code: None,
        },
        apply_guardrails: true,
    }];
    let text = refusal(&f, vec![card("codex-orch", "# role\n\n- OF-8\n"), main_card()]);
    assert!(text.contains("trigger 'bad' references unknown directive 'debrief'"));
}

#[test]
fn load_dispatch_config_rejects_roles_sharing_token_file() {
    let f = file(
        vec![role("codex-a", "/srv/cfg/shared.token"), role("codex-b", "/srv/cfg/shared.token")],
        vec![directive("reply", "codex-a")],
    );
    let cards = vec![
        card("codex-a", "# codex-a role card\n\n- OF-8\n"),
        card("codex-b", "# codex-b role card\n\n- OF-8\n"),
        main_card(),
    ];
    assert!(refusal(&f, cards).contains("share token_file"));
}

#[test]
fn load_dispatch_config_rejects_role_using_owner_fallback_token_path() {
    let f = file(
        vec![role("codex-orch", "/home/main/.config/forgejo-agent/token")],
        vec![directive("reply", "codex-orch")],
    );
    let cards = vec![card("codex-orch", "# codex-orch role card\n\n- OF-8\n"), main_card()];
    assert!(refusal(&f, cards).contains("owner fallback token"));
}

#[test]
fn load_dispatch_config_rejects_roles_sharing_forgejo_login() {
    let mut alpha = role("codex-alpha", "/srv/cfg/alpha.token");
    alpha.forgejo_login = Some("shared-login".to_string());
    let mut beta = role("codex-beta", "/srv/cfg/beta.token");
    beta.forgejo_login = Some("shared-login".to_string());
    let f = file(vec![alpha, beta], vec![directive("reply", "codex-alpha")]);
    let cards = vec![
        card("codex-alpha", "# codex-alpha role card\n\n- OF-8\n"),
        card("codex-beta", "# codex-beta role card\n\n- OF-8\n"),
        main_card(),
    ];
    assert!(refusal(&f, cards).contains("share forgejo_login"));
}

#[test]
fn load_dispatch_config_rejects_role_using_main_login() {
    let mut orch = role("codex-orch", "/srv/cfg/orch.token");
    orch.forgejo_login = Some("main".to_string());
    let f = file(vec![orch], vec![directive("reply", "codex-orch")]);
    let cards = vec![card("codex-orch", "# codex-orch role card\n\n- OF-8\n"), main_card()];
    assert!(refusal(&f, cards).contains("forbidden forgejo_login 'main'"));
}

#[test]
fn load_dispatch_config_rejects_control_plane_owner_fallback_token_path() {
    let mut f = file(
        vec![role("codex-orch", "/srv/cfg/orch.token")],
        vec![directive("reply", "codex-orch")],
    );
    f.control_plane_token_file = Some("/home/main/.config/forgejo-agent/token".to_string());
    let cards = vec![card("codex-orch", "# codex-orch role card\n\n- OF-8\n"), main_card()];
    let text = refusal(&f, cards);
    assert!(text.contains("control_plane token_file"));
    assert!(text.contains("owner fallback token"));
}

#[test]
fn load_dispatch_config_rejects_rank_override_widening_rank_envelope() {
    let mut f = file(
        vec![role("codex-orch", "/srv/cfg/token.txt")],
        vec![directive("reply", "codex-orch")],
    );
    f.rank_acl.ranks = vec![policy("OF-8", &["reply"], &["reply"])];
    f.rank_acl.role_overrides = vec![policy("codex-orch", &["reply", "impl"], &["reply", "impl"])];
    let cards = vec![card("codex-orch", "# codex-orch role card\n\n- OF-8\n"), main_card()];
    let msg = refusal(&f, cards);
    assert!(
        msg.contains("rank_acl.role_overrides.codex-orch widens rank OF-8 own_directives envelope")
            || msg.contains(
                "rank_acl.role_overrides.codex-orch widens rank OF-8 delegation_directives envelope"
            )
    );
}

#[test]
fn rank_acl_enforces_strict_downrank_with_reply_exception() {
    let mut f = file(
        vec![
            role("codex-orch", "/srv/cfg/orch.token"),
            role("codex-lead", "/srv/cfg/lead.token"),
            role("codex-dev", "/srv/cfg/dev.token"),
            role("codex-auditor", "/srv/cfg/auditor.token"),
        ],
        vec![directive("reply", "codex-orch")],
    );
    f.rank_acl.ranks = vec![
        policy("OF-10", &["reply"], &["reply", "design"]),
        policy("OF-8", &["reply", "design"], &["reply", "design"]),
        policy("OF-6", &["reply", "design"], &["reply", "design"]),
        policy("OF-2", &["reply", "impl"], &["reply", "impl"]),
    ];
    let cards = vec![
        main_card(),
        card("codex-orch", "# orch role card\n\n- OF-8\n"),
        card("codex-lead", "# lead role card\n\n- OF-6\n"),
        card("codex-dev", "# dev role card\n\n- OF-2\n"),
        card("codex-auditor", "# auditor role card\n\n- OF-6\n"),
    ];
    let config = accepted(&f, cards);
    let acl = &config.rank_acl;

    assert!(acl.assert_actor_can_dispatch("codex-lead", "codex-orch", "reply").is_ok());
    assert!(acl.assert_actor_can_dispatch("codex-lead", "codex-orch", "design").is_err());
    assert!(acl.assert_actor_can_dispatch("codex-lead", "codex-auditor", "reply").is_err());
    assert!(acl.assert_actor_can_dispatch("codex-dev", "codex-lead", "reply").is_ok());
    assert!(acl.assert_actor_can_dispatch("codex-orch", "codex-orch", "reply").is_ok());
    assert!(acl.assert_actor_can_dispatch("codex-dev", "codex-dev", "impl").is_err());
    assert!(acl.assert_actor_can_dispatch("main", "codex-orch", "reply").is_ok());
}

#[test]
fn versions_other_than_one_are_refused() {
    let mut f = file(
        vec![role("codex-orch", "/srv/cfg/token.txt")],
        vec![directive("reply", "codex-orch")],
    );
    f.version = 2;
    assert!(load(&f, vec![]).is_err());
}

#[test]
fn bindings_are_kept() {
    let mut f = file(
        vec![role("codex-orch", "/srv/cfg/token.txt")],
        vec![directive("reply", "codex-orch")],
    );
    f.repo_bindings = vec![DispatchRepoBindingConfig {
        repo: "main/forgejo-agent".to_string(),
        local_path: "~/forgejo-agent".to_string(),
        git_remote: "origin".to_string(),
        git_base: "main".to_string(),
    }];
    let config = accepted(&f, vec![card("codex-orch", "- OF-8\n"), main_card()]);
    assert_eq!(config.repo_bindings[0].repo, "main/forgejo-agent");
    assert_eq!(config.repo_bindings[0].local_path, "/home/main/forgejo-agent");
    assert_eq!(config.roles[0].forgejo_login, "codex-orch");
    assert_eq!(config.roles[0].codex_role_arg, "orch");
}

fn bound(text: &str) -> DispatchConfig {
    let value = |line: &str, key: &str| {
        line.strip_prefix(key).map(|rest| rest.trim_matches('"').to_string())
    };
    let mut f = file(
        vec![role("codex-orch", "/srv/cfg/token.txt")],
        vec![directive("reply", "codex-orch")],
    );
    let repos = text.lines().filter_map(|line| value(line, "repo = "));
    let paths = text.lines().filter_map(|line| value(line, "local_path = "));
    for (repo, local_path) in repos.zip(paths) {
        f.repo_bindings.push(DispatchRepoBindingConfig {
            repo,
            local_path,
            git_remote: "origin".to_string(),
            git_base: "main".to_string(),
        });
    }
    accepted(&f, vec![card("codex-orch", "# role\n\n- OF-8\n"), card("main", "# main\n\n- OF-10\n")])
}

fn binds(config: &DispatchConfig, repo: &str) -> bool {
    config.repo_bindings.iter().any(|binding| binding.repo == repo)
}

#[test]
fn reload_once_swaps_snapshot_on_valid_change() {
    let config_v1 = r#"version = 1
allowed_actors = ["main"]
legacy_triggers = false

[prompt_envelopes]
preamble_file = "/srv/cfg/prompts/orchd-preamble.md"
fresh_envelope = "/srv/cfg/prompts/orchd-envelope-fresh.md"
followup_envelope = "/srv/cfg/prompts/orchd-envelope-followup.md"

[roles.codex-orch]
token_file = "/srv/cfg/token.txt"

[directives.reply]
role = "codex-orch"
prompt_file = "/srv/cfg/prompts/orders/orchd-reply.md"

[[repo_bindings]]
repo = "main/forgejo-agent"
local_path = "/tmp/forgejo-agent"
git_remote = "origin"
git_base = "main"
"#;
    let live = DispatchConfigLive::load(config_v1, bound(config_v1));
    assert!(binds(live.snapshot(), "main/forgejo-agent"));
    assert!(!binds(live.snapshot(), "main/empty-status"));

    let config_v2 = format!(
        r#"{base}

[[repo_bindings]]
repo = "main/empty-status"
local_path = "/tmp/empty-status"
git_remote = "origin"
git_base = "main"
"#,
        base = config_v1.trim_end(),
    );
    assert_ne!(sha256_hex(config_v1.as_bytes()), sha256_hex(config_v2.as_bytes()));

    let (live, step) = live.reload_probe(Ok(&config_v2));
    let sha256 = match step {
        ReloadStep::Load { sha256 } => sha256,
        _ => panic!("a changed text is loaded"),
    };
    assert!(!binds(live.snapshot(), "main/empty-status"));
    let (live, told) = live.reload_loaded(sha256, Ok(bound(&config_v2)));
    assert!(matches!(told, Reloaded::TakenOver { .. }));
    assert!(binds(live.snapshot(), "main/empty-status"));
    let (_, step) = live.reload_probe(Ok(&config_v2));
    assert!(matches!(step, ReloadStep::Nothing));
}
