use orchd::role::{
    assert_rank_defined, normalize_rank, normalize_role_name, parse_rank_from_role_card,
    read_token_file, render_role_added_config, render_role_card, resolve_role_token_path, NewRole,
};

#[test]
fn normalize_rank_accepts_of_prefix() {
    let rank = normalize_rank("of-8").expect("rank should parse");
    assert_eq!(rank, "OF-8");
}

#[test]
fn parse_rank_from_role_card_reads_bullet() {
    let role_card = "# role\n\n- OF-6\n";
    assert_eq!(parse_rank_from_role_card(role_card), Some("OF-6".to_string()));
}

#[test]
fn assert_rank_defined_checks_acl_table() {
    let dispatch_config = r#"
version = 1
allowed_actors = ["main"]

[rank_acl]
enabled = true

[rank_acl.ranks."OF-10"]
directives = ["poke"]
"#;
    assert!(assert_rank_defined(dispatch_config, "OF-10").is_ok());
    assert!(assert_rank_defined(dispatch_config, "OF-8").is_err());
}

fn new_role(role: &str, token_file: &str, codex_role_arg: &str) -> NewRole<String> {
    NewRole {
        role: role.to_string(),
        forgejo_login: role.to_string(),
        token_file: token_file.to_string(),
        codex_bin: "/tmp/codex-role".to_string(),
        codex_role_arg: codex_role_arg.to_string(),
    }
}

const SOURCE: &str = r#"
version = 1
allowed_actors = ["main"]

[roles.codex-orch]
codex_bin = "/tmp/codex-role"
codex_role_arg = "orch"
forgejo_login = "codex-orch"
token_file = "/tmp/orch.token"
"#;

#[test]
fn render_role_added_config_inserts_role_block() {
    let rendered = render_role_added_config(
        SOURCE,
        &new_role("codex-dev", "/tmp/codex-dev.token", "dev"),
        true,
    )
    .expect("render role config");

    assert!(rendered.contains("[roles.codex-dev]"));
    assert!(rendered.contains("forgejo_login = \"codex-dev\""));
    assert!(rendered.contains("token_file = \"/tmp/codex-dev.token\""));
    assert!(rendered.contains("\"codex-dev\""));
}

#[test]
fn render_role_added_config_rejects_duplicate_role() {
    let source = r#"
version = 1
[roles.codex-orch]
token_file = "/tmp/orch.token"
"#;
    let result = render_role_added_config(source, &new_role("codex-orch", "/tmp/orch.token", "orch"), false);
    assert!(result.is_err());
}

#[test]
fn added_roles_are_printed_behind_the_others() {
    let rendered = render_role_added_config(
        SOURCE,
        &new_role("codex-dev", "/tmp/codex-dev.token", "dev"),
        true,
    )
    .expect("render role config");
    let expected = r#"
version = 1
allowed_actors = ["main", "codex-dev"]

[roles.codex-orch]
codex_bin = "/tmp/codex-role"
codex_role_arg = "orch"
forgejo_login = "codex-orch"
token_file = "/tmp/orch.token"

[roles.codex-dev]
codex_bin = "/tmp/codex-role"
codex_role_arg = "dev"
forgejo_login = "codex-dev"
token_file = "/tmp/codex-dev.token"
"#;
    assert_eq!(rendered, expected);
}

#[test]
fn configs_without_roles_or_actors_get_them() {
    let rendered =
        render_role_added_config("version = 1\n", &new_role("codex-dev", "/t", "dev"), true)
            .expect("render role config");
    assert!(rendered.contains("[roles.codex-dev]"));
    assert!(rendered.contains("allowed_actors = [\"codex-dev\"]"));
    let again = render_role_added_config(&rendered, &new_role("codex-dev", "/t", "dev"), true);
    assert_eq!(again, Err("role 'codex-dev' already exists".to_string()));
}

#[test]
fn configs_that_cannot_take_a_role_are_refused() {
    let role = new_role("codex-dev", "/t", "dev");
    assert_eq!(
        render_role_added_config("roles = 1\n", &role, false),
        Err("[roles] must be a table".to_string())
    );
    assert_eq!(
        render_role_added_config("allowed_actors = \"main\"\n", &role, true),
        Err("allowed_actors must be an array".to_string())
    );
    let broken = render_role_added_config("roles = [", &role, true).unwrap_err();
    assert!(broken.starts_with("invalid TOML in dispatch config: "));
    let inline = render_role_added_config("roles = { codex-a = { x = 1 } }\n", &role, false)
        .expect("inline tables take roles");
    assert!(inline.starts_with("roles = { codex-a = { x = 1 }"));
    assert!(inline.contains("codex-dev = {"));
}

#[test]
fn actors_are_listed_once() {
    let source = "allowed_actors = [\"codex-dev\", 1]\n";
    let rendered = render_role_added_config(source, &new_role("codex-dev", "/t", "dev"), true)
        .expect("render role config");
    assert!(rendered.starts_with(source));
}

#[test]
fn ranks_do_not_count_where_they_are_switched_off() {
    assert!(assert_rank_defined("[rank_acl]\nenabled = false\n", "OF-8").is_ok());
    assert_eq!(
        assert_rank_defined("version = 1\n", "OF-8"),
        Err("rank 'OF-8' is not configured under [rank_acl.ranks] in dispatch config".to_string())
    );
    assert!(assert_rank_defined("rank_acl = { enabled = false }\n", "OF-8").is_err());
    assert!(assert_rank_defined("[", "OF-8").unwrap_err().starts_with("invalid TOML in dispatch config: "));
}

#[test]
fn ranks_and_roles_have_a_normal_form() {
    assert_eq!(normalize_rank(" of-06, "), Ok("OF-06".to_string()));
    assert_eq!(normalize_rank("6"), Err("rank must be OF-<n>, got '6'".to_string()));
    assert_eq!(normalize_rank("OF-256"), Err("invalid rank digits in 'OF-256'".to_string()));
    assert_eq!(normalize_role_name(" Codex-Dev_1 "), Ok("codex-dev_1".to_string()));
    assert_eq!(normalize_role_name("  "), Err("role cannot be empty".to_string()));
    assert_eq!(
        normalize_role_name("dev"),
        Err("role must start with 'codex-' (got 'dev')".to_string())
    );
    assert_eq!(
        normalize_role_name("codex-d/v"),
        Err("role contains unsupported characters: 'codex-d/v'".to_string())
    );
    assert_eq!(parse_rank_from_role_card("- none\n* of-2 is the rank\n"), Some("OF-2".to_string()));
    assert_eq!(parse_rank_from_role_card("OF-2\n"), None);
}

#[test]
fn tokens_are_found_and_read() {
    let home = Some("/home/main".to_string());
    assert_eq!(
        resolve_role_token_path(&None, "codex-dev", &home),
        Ok("/home/main/.config/forgejo-agent/creds/codex-dev.token".to_string())
    );
    assert_eq!(
        resolve_role_token_path(&Some("~/t".to_string()), "codex-dev", &home),
        Ok("/home/main/t".to_string())
    );
    assert_eq!(
        resolve_role_token_path(&None, "codex-dev", &None),
        Err("HOME is not set".to_string())
    );
    assert_eq!(read_token_file("/t", &Some(" abc\n".to_string())), Ok("abc".to_string()));
    assert_eq!(
        read_token_file("/t", &Some(" \n".to_string())),
        Err("token file /t is empty".to_string())
    );
    assert_eq!(read_token_file("/t", &None), Err("failed reading token file /t".to_string()));
}

#[test]
fn role_cards_are_filled_in() {
    let template = Some("# {{role}}\n\n- {{rank}}\n{{role}}{{x}}".to_string());
    assert_eq!(
        render_role_card("codex-dev", "OF-2", "/cards/codex-dev.md", &template),
        Ok("# codex-dev\n\n- OF-2\ncodex-dev{{x}}".to_string())
    );
    assert_eq!(
        render_role_card("codex-dev", "OF-2", "/cards/codex-dev.md", &None),
        Err("failed reading role template templates/role-card-template.md (needed for /cards/codex-dev.md)".to_string())
    );
}
