use orchd::config_load::find_role;
use orchd::dispatch_config::DispatchRoleConfig;
use orchd::envelopes::DispatchPromptEnvelopeConfig;
use orchd::minting::{
    begin_minting, mint_role_token, refusal, stamped, MintAction, MintReply, MintStep,
};
use orchd::role::{expected_admin_for_role, read_admin_token, read_token_if_exists, role_arg};
use orchd::role_add::{
    added_config, begin_role_add, role_add_command, user_must_be_made, user_urls, AddAction, AddEnd, AddReply,
    Adding, RoleAddArgs, TokenUndo,
};
use orchd::role_check::{
    check_role, check_role_offline, octal_text, role_check_verdict, roles_to_check, ForgejoUser, RoleFacts,
};

fn s(t: &str) -> String {
    t.to_string()
}

fn role() -> DispatchRoleConfig {
    DispatchRoleConfig {
        name: s("codex-dev"),
        codex_bin: s("/bin/codex"),
        codex_role_arg: s("dev"),
        forgejo_login: s("codex-dev"),
        token_file: s("/t/dev"),
    }
}

fn envelopes() -> DispatchPromptEnvelopeConfig {
    DispatchPromptEnvelopeConfig {
        preamble_file: s("/p/preamble.md"),
        fresh_envelope: s("/p/fresh.md"),
        followup_envelope: s("/p/followup.md"),
        turn_context_file: s("/p/turn.md"),
        issue_fresh_file: s("/p/issue-fresh.md"),
        issue_followup_file: s("/p/issue-followup.md"),
    }
}

fn facts() -> RoleFacts {
    RoleFacts {
        card: Some(s("# role\n\n- OF-6\n")),
        token: Some(s("tok\n")),
        mode: Some(0o600),
        whoami: Ok(s("codex-dev")),
        user: Ok(Some(ForgejoUser { login: s("Codex-Dev"), is_admin: false, active: true })),
    }
}

#[test]
fn sound_roles_have_no_errors() {
    let c = check_role(&role(), &envelopes(), &facts());
    assert!(c.errors.is_empty(), "{:?}", c.errors);
    assert!(c.warnings.is_empty());
    assert_eq!(c.expected_rank, Some(s("OF-6")));
    assert_eq!(c.token_login, Some(s("codex-dev")));
    assert_eq!((c.user_active, c.user_admin), (Some(true), Some(false)));
    assert_eq!(c.role_card_file, "/p/roles/codex-dev.md");
    assert!(role_check_verdict(&vec![c], &None).is_ok());
}

#[test]
fn unsound_roles_are_told() {
    let mut f = facts();
    f.mode = Some(0o644);
    f.whoami = Ok(s("main"));
    f.user = Ok(Some(ForgejoUser { login: s("x"), is_admin: true, active: false }));
    let c = check_role(&role(), &envelopes(), &f);
    assert_eq!(
        c.errors,
        vec![
            "token file mode 644 is too permissive; expected 600 or stricter",
            "token resolves to 'main' but role forgejo_login is 'codex-dev'",
            "forgejo user lookup resolved 'x' instead of 'codex-dev'",
            "forgejo user is inactive",
            "forgejo admin flag mismatch (expected false, got true)",
        ]
    );
    assert!(role_check_verdict(&vec![c], &None).is_err());
    let mut f = facts();
    f.user = Ok(None);
    f.whoami = Err(s("down"));
    let c = check_role(&role(), &envelopes(), &f);
    assert_eq!(c.errors, vec!["token whoami failed: down", "forgejo user does not exist"]);
    let mut f = facts();
    f.user = Err(s("down"));
    let c = check_role(&role(), &envelopes(), &f);
    assert!(c.errors.is_empty());
    assert_eq!(c.warnings, vec!["forgejo user lookup failed: down"]);
    let mut f = facts();
    f.token = None;
    let c = check_role(&role(), &envelopes(), &f);
    assert_eq!(c.errors.len(), 1);
    assert!(c.errors[0].starts_with("token file: "));
    assert_eq!(c.token_login, None);
    assert_eq!(octal_text(0o644), "644");
    assert_eq!(octal_text(0), "0");
}

#[test]
fn roles_are_checked_in_order() {
    let mut b = role();
    b.name = s("a-role");
    let roles = vec![role(), b];
    assert_eq!(roles_to_check(&roles, &None), vec!["a-role", "codex-dev"]);
    assert_eq!(roles_to_check(&roles, &Some(s("codex-dev"))), vec!["codex-dev"]);
    assert!(roles_to_check(&roles, &Some(s("z"))).is_empty());
    assert_eq!(find_role(&roles, "a-role"), Some(1));
}

#[test]
fn role_tokens_are_read() {
    assert!(expected_admin_for_role("main"));
    assert!(!expected_admin_for_role("codex-dev"));
    assert_eq!(read_token_if_exists("/t", false, &None), Ok(None));
    assert_eq!(read_token_if_exists("/t", true, &Some(s(" a \n"))), Ok(Some(s("a"))));
    assert_eq!(
        read_admin_token(&None, &None),
        Err(s("admin token file is required (use --admin-token-file)"))
    );
    assert_eq!(read_admin_token(&Some(s("~/a")), &Some(s("/h"))), Ok(s("/h/a")));
    assert_eq!(role_arg(&None, "codex-dev"), "dev");
    assert_eq!(role_arg(&None, "main"), "main");
    assert_eq!(role_arg(&Some(s(" Ops ")), "codex-dev"), "ops");
}

fn add_args(dry_run: bool, rotate: bool) -> RoleAddArgs<String> {
    RoleAddArgs {
        role: s("codex-new"),
        rank: s("OF-6"),
        forgejo_login: s("codex-new"),
        codex_role_arg: None,
        token_file: Some(s("/t/new")),
        codex_bin: None,
        any_codex_bin: Some(s("/bin/any")),
        can_dispatch: true,
        create_user: true,
        rotate_token: rotate,
        dry_run,
        admin_token_file: Some(s("/t/admin")),
        scream_owner: s("main"),
        scream_repo: s("scream"),
        scream_permission: s("write"),
        base_url: s("http://h/"),
        config_path: s("/c.toml"),
        home: Some(s("/h")),
    }
}

const CONFIG: &str = "version = 1\nallowed_actors = [\"main\"]\n\n[rank_acl.ranks.\"OF-6\"]\ndirectives = [\"reply\"]\n";

fn begin(dry_run: bool, rotate: bool) -> (Adding<String>, AddAction<String>) {
    match begin_role_add(&add_args(dry_run, rotate), &vec![role()], &envelopes()) {
        Ok(x) => x,
        Err(e) => panic!("{e}"),
    }
}

fn drive(
    step: (Adding<String>, AddAction<String>),
    old_token: Option<&str>,
    fail_reload: bool,
) -> (Vec<String>, AddEnd<String>) {
    let mut at = step;
    let mut trace = vec![];
    loop {
        let (name, reply) = match at.1 {
            AddAction::ProbeCard(p) => {
                assert_eq!(p, "/p/roles/codex-new.md");
                ("probe", AddReply::Exists(false))
            }
            AddAction::ReadConfig(_) => ("config", AddReply::Text(Some(s(CONFIG)))),
            AddAction::ReadToken(_) => {
                if trace.iter().any(|t| t == "write_config") {
                    ("token_again", AddReply::Text(Some(s("minted"))))
                } else {
                    let text = old_token.map(s);
                    ("token", AddReply::TokenFile { exists: text.is_some(), text })
                }
            }
            AddAction::ReadAdminToken(_) => ("admin", AddReply::Text(Some(s("adm")))),
            AddAction::Mint { create_user, .. } => {
                assert!(create_user);
                ("mint", AddReply::Outcome(Ok(s("minted"))))
            }
            AddAction::SaveToken { .. } => ("save", AddReply::Outcome(Ok(s("")))),
            AddAction::Whoami { .. } => ("whoami", AddReply::Outcome(Ok(s("codex-new")))),
            AddAction::PutCollaborator { url, permission, .. } => {
                assert_eq!(url, "http://h/api/v1/repos/main/scream/collaborators/codex-new");
                assert_eq!(permission, "write");
                ("acl", AddReply::Outcome(Ok(s(""))))
            }
            AddAction::ReadTemplate => ("template", AddReply::Text(Some(s("# {{role}}\n\n- {{rank}}\n")))),
            AddAction::WriteCard { .. } => ("write_card", AddReply::Outcome(Ok(s("")))),
            AddAction::WriteConfig { path, text } => {
                assert_eq!(path, "/c.toml");
                assert!(text.starts_with("version = 1\nallowed_actors = [\"main\", \"codex-new\"]\n"));
                assert!(text.contains("[roles.codex-new]"), "{text}");
                assert!(text.contains("token_file = \"/t/new\""));
                ("write_config", AddReply::Outcome(Ok(s(""))))
            }
            AddAction::Reload(_) => {
                let r = if fail_reload { Err(s("bad")) } else { Ok(true) };
                ("reload", AddReply::Loaded(r))
            }
            AddAction::CheckRole => ("check", AddReply::Sound(true)),
            AddAction::End(e) => return (trace, e),
        };
        trace.push(s(name));
        assert!(trace.len() < 30);
        at = role_add_command(at.0, reply);
    }
}

#[test]
fn dry_runs_change_nothing() {
    let (trace, end) = drive(begin(true, false), None, false);
    assert!(matches!(end, AddEnd::Planned));
    for t in ["mint", "save", "acl", "write_card", "write_config"] {
        assert!(!trace.iter().any(|x| x == t), "{t}");
    }
}

#[test]
fn added_roles_are_sound() {
    let (trace, end) = drive(begin(false, false), None, false);
    match end {
        AddEnd::Added => {}
        AddEnd::Refused(e) => panic!("{e}"),
        AddEnd::RolledBack { error, .. } => panic!("{error}"),
        AddEnd::Planned => panic!("it was no dry run"),
    }
    assert_eq!(trace.last(), Some(&s("check")));
    assert!(trace.iter().any(|t| t == "mint"));
}

#[test]
fn written_configs_have_the_role() {
    let (a, _) = begin(false, false);
    match added_config(&a.wanted, CONFIG) {
        Ok(text) => {
            assert!(text.contains("[roles.codex-new]"), "{text}");
            assert!(text.contains("codex_bin = \"/bin/any\""));
            assert!(text.contains("codex_role_arg = \"new\""));
            assert_eq!(
                added_config(&a.wanted, &text),
                Err(s("role 'codex-new' already exists"))
            );
        }
        Err(e) => panic!("{e}"),
    }
    assert_eq!(added_config(&a.wanted, "roles = 1\n"), Err(s("[roles] must be a table")));
    assert_eq!(
        added_config(&a.wanted, "allowed_actors = 1\n"),
        Err(s("allowed_actors must be an array"))
    );
}

#[test]
fn failed_adds_are_undone() {
    let (_, end) = drive(begin(false, false), None, true);
    match end {
        AddEnd::RolledBack { config, remove_card, token, .. } => {
            assert_eq!(config, Some(s(CONFIG)));
            assert!(remove_card);
            assert!(matches!(token, TokenUndo::Remove));
        }
        _ => panic!("the config does not load"),
    }
    let (_, end) = drive(begin(false, true), Some("old"), true);
    assert!(matches!(end, AddEnd::RolledBack { token: TokenUndo::Restore(t), .. } if t == "old"));
}

#[test]
fn known_roles_are_not_added() {
    let mut a = add_args(false, false);
    a.role = s("Codex-Dev");
    match begin_role_add(&a, &vec![role()], &envelopes()) {
        Ok(_) => panic!("the role is there"),
        Err(e) => assert_eq!(e, "role 'codex-dev' already exists in dispatch config"),
    }
    let (a, _) = begin(false, false);
    let (_, action) = role_add_command(a, AddReply::Exists(true));
    assert!(matches!(action, AddAction::End(AddEnd::Refused(e))
        if e == "role card already exists for role 'codex-new' at /p/roles/codex-new.md"));
}

fn mint(create: bool, replies: Vec<MintReply<String>>) -> MintStep {
    let mut at = begin_minting("codex-new", create);
    for r in replies {
        at = mint_role_token(at.0, r);
    }
    at
}

#[test]
fn tokens_are_minted() {
    let step = mint(true, vec![MintReply::Known(false)]);
    assert!(matches!(&step.1, MintAction::MakeUser { email, password }
        if email == "codex-new@localhost" && password == "codex-new-bootstrap-Password-123"));
    let step = mint(true, vec![MintReply::Known(true), MintReply::Done]);
    assert!(matches!(step.1, MintAction::MakeToken { scoped: true }));
    let step = mint(
        true,
        vec![MintReply::Known(true), MintReply::Done, MintReply::Failed(s("scopes"))],
    );
    assert!(matches!(step.1, MintAction::MakeToken { scoped: false }));
    let step = mint_role_token(step.0, MintReply::Token(s("sha")));
    assert!(matches!(step.1, MintAction::End(Ok(t)) if t == "sha"));
    let step = mint(false, vec![MintReply::Known(false)]);
    assert!(matches!(step.1, MintAction::End(Err(e))
        if e == "forgejo user 'codex-new' does not exist; rerun with --create-user to provision"));
    assert!(matches!(user_must_be_made(true, false, "x"), Ok(false)));
    assert_eq!(user_urls("http://h/", "x").3, "http://h/api/v1/users/x/tokens");
    assert_eq!(stamped("x", "20240101-000000"), "x-20240101-000000");
    assert_eq!(refusal("PUT", "http://u", 422, "raw", &None), "PUT http://u failed with 422: raw");
    assert_eq!(
        refusal("PUT", "http://u", 422, "raw", &Some(s("no"))),
        "PUT http://u failed with 422: no"
    );
}

#[test]
fn roles_are_checked_without_the_forge() {
    let f = facts();
    let c = check_role_offline(&role(), &envelopes(), &f.card, &f.token, f.mode);
    assert!(c.errors.is_empty());
    assert!(c.warnings.is_empty());
    assert!(c.token_login.is_none());
    assert!(c.user_active.is_none());
    let bare = check_role_offline(&role(), &envelopes(), &None, &None, Some(0o644));
    assert_eq!(bare.errors.len(), 3);
    assert!(bare.errors[0].starts_with("role card: failed reading role card "));
    assert!(bare.errors[1].starts_with("token file: "));
    assert_eq!(
        bare.errors[2],
        "token file mode 644 is too permissive; expected 600 or stricter"
    );
}
