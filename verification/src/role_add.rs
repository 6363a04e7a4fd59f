//! Adding a role: the steps from what was asked for to a checked role, and what is undone when one of
//! the last of them fails.

use crate::config_load::find_role;
use crate::dispatch_config::{role_names, role_views, DispatchRoleConfig};
use crate::envelopes::{card_path, DispatchPromptEnvelopeConfig};
use crate::paths::{expanded, path_eq, same_path, text_result};
use crate::role::{
    assert_rank_defined, new_role_view, normalize_name, normalize_rank, normalize_role_name,
    owner_fallback_token_path, rank_fault, rank_name, read_admin_token, read_token_file,
    render_role_added_config, render_role_card, resolve_role_token_path, role_added, role_arg,
    role_name, role_token_path, secret_token_text, token_in, DEFAULT_CODEX_BIN,
    DEFAULT_ROLE_TEMPLATE, NewRole,
};
use crate::text::{
    after_prefix, cat2, cat3, cat4, cat5, cat7, clone_opt, has_key, norm, opt_view, replaced,
    str_eq, str_trim_back_of, trim, trim_back_of,
};
use vstd::prelude::*;
use vstd::string::*;

verus! {

/// A role that is to be added, and what it takes to do so: its normal form, where its files are, and how
/// its user and its token come about.
#[verifier::ext_equal]
pub struct Wanted<S> {
    pub role: S,
    pub rank: S,
    pub forgejo_login: S,
    pub codex_role_arg: S,
    pub token_file: S,
    pub codex_bin: S,
    pub role_card_file: S,
    pub config_path: S,
    pub can_dispatch: bool,
    pub create_user: bool,
    pub rotate_token: bool,
    pub dry_run: bool,
    pub admin_token_file: Option<S>,
    pub acl_url: S,
    pub scream_permission: S,
    pub home: Option<S>,
}

/// The view of a role that is to be added.
pub open spec fn wanted_view(w: Wanted<String>) -> Wanted<Seq<char>> {
    Wanted {
        role: w.role@,
        rank: w.rank@,
        forgejo_login: w.forgejo_login@,
        codex_role_arg: w.codex_role_arg@,
        token_file: w.token_file@,
        codex_bin: w.codex_bin@,
        role_card_file: w.role_card_file@,
        config_path: w.config_path@,
        can_dispatch: w.can_dispatch,
        create_user: w.create_user,
        rotate_token: w.rotate_token,
        dry_run: w.dry_run,
        admin_token_file: opt_view(w.admin_token_file),
        acl_url: w.acl_url@,
        scream_permission: w.scream_permission@,
        home: opt_view(w.home),
    }
}

/// What was asked for, as it was asked. `any_codex_bin` is the program of some role of the
/// configuration.
pub struct RoleAddArgs<S> {
    pub role: S,
    pub rank: S,
    pub forgejo_login: S,
    pub codex_role_arg: Option<S>,
    pub token_file: Option<S>,
    pub codex_bin: Option<S>,
    pub any_codex_bin: Option<S>,
    pub can_dispatch: bool,
    pub create_user: bool,
    pub rotate_token: bool,
    pub dry_run: bool,
    pub admin_token_file: Option<S>,
    pub scream_owner: S,
    pub scream_repo: S,
    pub scream_permission: S,
    pub base_url: S,
    pub config_path: S,
    pub home: Option<S>,
}

/// The view of what was asked for.
pub open spec fn args_view(a: RoleAddArgs<String>) -> RoleAddArgs<Seq<char>> {
    RoleAddArgs {
        role: a.role@,
        rank: a.rank@,
        forgejo_login: a.forgejo_login@,
        codex_role_arg: opt_view(a.codex_role_arg),
        token_file: opt_view(a.token_file),
        codex_bin: opt_view(a.codex_bin),
        any_codex_bin: opt_view(a.any_codex_bin),
        can_dispatch: a.can_dispatch,
        create_user: a.create_user,
        rotate_token: a.rotate_token,
        dry_run: a.dry_run,
        admin_token_file: opt_view(a.admin_token_file),
        scream_owner: a.scream_owner@,
        scream_repo: a.scream_repo@,
        scream_permission: a.scream_permission@,
        base_url: a.base_url@,
        config_path: a.config_path@,
        home: opt_view(a.home),
    }
}

/// Where the forge keeps what a user may do in a repository.
pub open spec fn collaborator_url(
    base: Seq<char>,
    owner: Seq<char>,
    repo: Seq<char>,
    login: Seq<char>,
) -> Seq<char> {
    trim_back_of(base, "/"@) + "/api/v1/repos/"@ + owner + "/"@ + repo + "/collaborators/"@ + login
}

/// The role to be added, or what is wrong with what was asked for.
pub open spec fn wanted(a: RoleAddArgs<Seq<char>>, names: Seq<Seq<char>>, preamble: Seq<char>) -> Result<
    Wanted<Seq<char>>,
    Seq<char>,
> {
    match (role_name(a.role), rank_name(a.rank)) {
        (Err(e), _) => Err(e),
        (Ok(_), Err(e)) => Err(e),
        (Ok(role), Ok(rank)) => if has_key(names, role) {
            Err("role '"@ + role + "' already exists in dispatch config"@)
        } else {
            match role_token_path(a.token_file, role, a.home) {
                Err(e) => Err(e),
                Ok(token_file) => Ok(
                    Wanted {
                        role,
                        rank,
                        forgejo_login: norm(a.forgejo_login),
                        codex_role_arg: match a.codex_role_arg {
                            Some(x) => norm(x),
                            None => match after_prefix(role, "codex-"@) {
                                Some(rest) => rest,
                                None => role,
                            },
                        },
                        token_file,
                        codex_bin: match (a.codex_bin, a.any_codex_bin) {
                            (Some(b), _) => b,
                            (None, Some(b)) => b,
                            (None, None) => DEFAULT_CODEX_BIN@,
                        },
                        role_card_file: card_path(preamble, role),
                        config_path: a.config_path,
                        can_dispatch: a.can_dispatch,
                        create_user: a.create_user,
                        rotate_token: a.rotate_token,
                        dry_run: a.dry_run,
                        admin_token_file: a.admin_token_file,
                        acl_url: collaborator_url(
                            a.base_url,
                            a.scream_owner,
                            a.scream_repo,
                            norm(a.forgejo_login),
                        ),
                        scream_permission: norm(a.scream_permission),
                        home: a.home,
                    },
                ),
            }
        },
    }
}

/// Which answer the adding of a role waits for.
#[derive(Clone, Copy, PartialEq, Eq, Structural)]
pub enum AddPhase {
    Card,
    Config,
    Token,
    AdminForMint,
    Mint,
    SaveToken,
    Identity,
    AdminForAcl,
    Acl,
    Template,
    WriteCard,
    WriteConfig,
    Reload,
    TokenAgain,
    IdentityAgain,
    Check,
    Over,
}

/// Where the adding of a role stands: the configuration as it was and as it will be, the token, the one
/// before it, and whether the token's file is new.
#[verifier::ext_equal]
pub struct Adding<S> {
    pub phase: AddPhase,
    pub wanted: Wanted<S>,
    pub config_before: S,
    pub config_after: S,
    pub token: S,
    pub previous: Option<S>,
    pub created: bool,
}

/// The view of where the adding of a role stands.
pub open spec fn adding_view(a: Adding<String>) -> Adding<Seq<char>> {
    Adding {
        phase: a.phase,
        wanted: wanted_view(a.wanted),
        config_before: a.config_before@,
        config_after: a.config_after@,
        token: a.token@,
        previous: opt_view(a.previous),
        created: a.created,
    }
}

/// What is done about the token's file when the adding fails at the end.
#[verifier::ext_equal]
pub enum TokenUndo<S> {
    Keep,
    Remove,
    Restore(S),
}

/// How the adding of a role ends.
#[verifier::ext_equal]
pub enum AddEnd<S> {
    /// Nothing was changed here beyond a token that was already saved.
    Refused(S),
    /// Nothing was to be changed, and this is what would have been.
    Planned,
    /// The role is there and sound.
    Added,
    /// A late step failed: the configuration is put back, the card and the token are undone.
    RolledBack { error: S, config: Option<S>, remove_card: bool, token: TokenUndo<S> },
}

/// What is to be done next.
#[verifier::ext_equal]
pub enum AddAction<S> {
    ProbeCard(S),
    ReadConfig(S),
    ReadToken(S),
    ReadAdminToken(S),
    Mint { login: S, admin_token: S, create_user: bool },
    SaveToken { path: S, text: S },
    Whoami { token: S },
    PutCollaborator { url: S, admin_token: S, permission: S },
    ReadTemplate,
    WriteCard { path: S, text: S },
    WriteConfig { path: S, text: S },
    Reload(S),
    CheckRole,
    End(AddEnd<S>),
}

/// The view of what is to be done next.
pub open spec fn action_view(a: AddAction<String>) -> AddAction<Seq<char>> {
    match a {
        AddAction::ProbeCard(p) => AddAction::ProbeCard(p@),
        AddAction::ReadConfig(p) => AddAction::ReadConfig(p@),
        AddAction::ReadToken(p) => AddAction::ReadToken(p@),
        AddAction::ReadAdminToken(p) => AddAction::ReadAdminToken(p@),
        AddAction::Mint { login, admin_token, create_user } => AddAction::Mint {
            login: login@,
            admin_token: admin_token@,
            create_user,
        },
        AddAction::SaveToken { path, text } => AddAction::SaveToken { path: path@, text: text@ },
        AddAction::Whoami { token } => AddAction::Whoami { token: token@ },
        AddAction::PutCollaborator { url, admin_token, permission } => AddAction::PutCollaborator {
            url: url@,
            admin_token: admin_token@,
            permission: permission@,
        },
        AddAction::ReadTemplate => AddAction::ReadTemplate,
        AddAction::WriteCard { path, text } => AddAction::WriteCard { path: path@, text: text@ },
        AddAction::WriteConfig { path, text } => AddAction::WriteConfig { path: path@, text: text@ },
        AddAction::Reload(p) => AddAction::Reload(p@),
        AddAction::CheckRole => AddAction::CheckRole,
        AddAction::End(e) => AddAction::End(
            match e {
                AddEnd::Refused(t) => AddEnd::Refused(t@),
                AddEnd::Planned => AddEnd::Planned,
                AddEnd::Added => AddEnd::Added,
                AddEnd::RolledBack { error, config, remove_card, token } => AddEnd::RolledBack {
                    error: error@,
                    config: opt_view(config),
                    remove_card,
                    token: match token {
                        TokenUndo::Keep => TokenUndo::Keep,
                        TokenUndo::Remove => TokenUndo::Remove,
                        TokenUndo::Restore(t) => TokenUndo::Restore(t@),
                    },
                },
            },
        ),
    }
}

/// The answer to what was to be done. A file is there or not, with what it holds, None where it cannot
/// be read; a call gave a text or failed with one; the configuration as read again has the role or not;
/// the check of the role found it sound or not.
pub enum AddReply<S> {
    Exists(bool),
    Text(Option<S>),
    TokenFile { exists: bool, text: Option<S> },
    Outcome(Result<S, S>),
    Loaded(Result<bool, S>),
    Sound(bool),
}

/// The view of an answer.
pub open spec fn reply_view(r: AddReply<String>) -> AddReply<Seq<char>> {
    match r {
        AddReply::Exists(b) => AddReply::Exists(b),
        AddReply::Text(t) => AddReply::Text(opt_view(t)),
        AddReply::TokenFile { exists, text } => AddReply::TokenFile { exists, text: opt_view(text) },
        AddReply::Outcome(o) => AddReply::Outcome(text_result(o)),
        AddReply::Loaded(l) => AddReply::Loaded(
            match l {
                Ok(b) => Ok(b),
                Err(e) => Err(e@),
            },
        ),
        AddReply::Sound(b) => AddReply::Sound(b),
    }
}

/// The answer is one to what the phase waits for.
pub open spec fn fits<S>(phase: AddPhase, reply: AddReply<S>) -> bool {
    match phase {
        AddPhase::Card => reply is Exists,
        AddPhase::Config => reply is Text,
        AddPhase::Token => reply is TokenFile,
        AddPhase::AdminForMint => reply is Text,
        AddPhase::Mint => reply is Outcome,
        AddPhase::SaveToken => reply is Outcome,
        AddPhase::Identity => reply is Outcome,
        AddPhase::AdminForAcl => reply is Text,
        AddPhase::Acl => reply is Outcome,
        AddPhase::Template => reply is Text,
        AddPhase::WriteCard => reply is Outcome,
        AddPhase::WriteConfig => reply is Outcome,
        AddPhase::Reload => reply is Loaded,
        AddPhase::TokenAgain => reply is Text,
        AddPhase::IdentityAgain => reply is Outcome,
        AddPhase::Check => reply is Sound,
        AddPhase::Over => false,
    }
}

/// The adding goes on in the phase.
pub open spec fn to(
    a: Adding<Seq<char>>,
    phase: AddPhase,
    action: AddAction<Seq<char>>,
) -> (Adding<Seq<char>>, AddAction<Seq<char>>) {
    (Adding { phase, ..a }, action)
}

/// The adding ends before anything but a token was written.
pub open spec fn refused(a: Adding<Seq<char>>, error: Seq<char>) -> (
    Adding<Seq<char>>,
    AddAction<Seq<char>>,
) {
    to(a, AddPhase::Over, AddAction::End(AddEnd::Refused(error)))
}

/// The adding ends after a late step failed. What the steps before it wrote is undone.
pub open spec fn rolled_back(a: Adding<Seq<char>>, error: Seq<char>) -> (
    Adding<Seq<char>>,
    AddAction<Seq<char>>,
) {
    to(
        a,
        AddPhase::Over,
        AddAction::End(
            AddEnd::RolledBack {
                error,
                config: if a.phase == AddPhase::WriteCard || a.phase == AddPhase::WriteConfig {
                    None
                } else {
                    Some(a.config_before)
                },
                remove_card: a.phase != AddPhase::WriteCard,
                token: if a.created {
                    TokenUndo::Remove
                } else {
                    match (a.wanted.rotate_token, a.previous) {
                        (true, Some(t)) => TokenUndo::Restore(t),
                        _ => TokenUndo::Keep,
                    }
                },
            },
        ),
    )
}

/// Where the administrator's token is, which must be said.
pub open spec fn admin_path(w: Wanted<Seq<char>>) -> Result<Seq<char>, Seq<char>> {
    match w.admin_token_file {
        Some(p) => expanded(p, w.home),
        None => Err("admin token file is required (use --admin-token-file)"@),
    }
}

/// What is said where a token is not that of the login.
pub open spec fn identity_fault(login: Seq<char>, found: Seq<char>) -> Seq<char> {
    "token identity mismatch: expected '"@ + login + "', got '"@ + found + "'"@
}

/// The permission is one that the forge knows.
pub open spec fn known_permission(p: Seq<char>) -> bool {
    p == "read"@ || p == "write"@ || p == "admin"@
}

/// What the configuration is to say of the role.
pub open spec fn new_role_of(w: Wanted<Seq<char>>) -> NewRole<Seq<char>> {
    NewRole {
        role: w.role,
        forgejo_login: w.forgejo_login,
        token_file: w.token_file,
        codex_bin: w.codex_bin,
        codex_role_arg: w.codex_role_arg,
    }
}

/// The text is that of the configuration as it was read, with the role that is wanted; or it says what is
/// wrong.
pub open spec fn renders(a: Adding<Seq<char>>, text: Result<Seq<char>, Seq<char>>) -> bool {
    role_added(a.config_before, new_role_of(a.wanted), a.wanted.can_dispatch, text)
}

/// The next step with the configuration as it will be.
pub open spec fn with_config(a: Adding<Seq<char>>, text: Result<Seq<char>, Seq<char>>) -> (
    Adding<Seq<char>>,
    AddAction<Seq<char>>,
) {
    match text {
        Err(e) => refused(a, e),
        Ok(t) => to(Adding { config_after: t, ..a }, AddPhase::Template, AddAction::ReadTemplate),
    }
}

/// The next step after the token is at hand: on a dry run nothing is asked of the forge, and the
/// configuration is next.
pub open spec fn with_token(a: Adding<Seq<char>>, text: Result<Seq<char>, Seq<char>>) -> (
    Adding<Seq<char>>,
    AddAction<Seq<char>>,
) {
    if a.wanted.dry_run {
        with_config(a, text)
    } else {
        to(a, AddPhase::Identity, AddAction::Whoami { token: a.token })
    }
}

/// The token that was there before, where there was one.
pub open spec fn token_before(path: Seq<char>, exists: bool, text: Option<Seq<char>>) -> Result<
    Option<Seq<char>>,
    Seq<char>,
> {
    if !exists {
        Ok(None)
    } else {
        match token_in(path, text) {
            Ok(t) => Ok(Some(t)),
            Err(e) => Err(e),
        }
    }
}

/// The answer is followed by the making of the configuration as it will be.
pub open spec fn renders_now(a: Adding<Seq<char>>, reply: AddReply<Seq<char>>) -> bool {
    match (a.phase, reply) {
        (AddPhase::Token, AddReply::TokenFile { exists, text }) => a.wanted.dry_run && token_before(
            a.wanted.token_file,
            exists,
            text,
        ) is Ok,
        (AddPhase::SaveToken, AddReply::Outcome(Ok(_))) => a.wanted.dry_run,
        (AddPhase::Acl, AddReply::Outcome(Ok(_))) => true,
        _ => false,
    }
}

/// The next step after an answer. `text` is the configuration as it will be, for the answers that are
/// followed by its making.
pub open spec fn next(
    a: Adding<Seq<char>>,
    reply: AddReply<Seq<char>>,
    text: Result<Seq<char>, Seq<char>>,
) -> (Adding<Seq<char>>, AddAction<Seq<char>>) {
    let w = a.wanted;
    match (a.phase, reply) {
        (AddPhase::Card, AddReply::Exists(there)) => if there {
            refused(
                a,
                "role card already exists for role '"@ + w.role + "' at "@ + w.role_card_file,
            )
        } else {
            to(a, AddPhase::Config, AddAction::ReadConfig(w.config_path))
        },
        (AddPhase::Config, AddReply::Text(None)) => refused(
            a,
            "failed reading "@ + w.config_path,
        ),
        (AddPhase::Config, AddReply::Text(Some(config))) => {
            let b = Adding { config_before: config, ..a };
            match (rank_fault(config, w.rank), expanded("~/.config/forgejo-agent/token"@, w.home)) {
                (Some(m), _) => refused(b, m),
                (None, Err(e)) => refused(b, e),
                (None, Ok(owner)) => if same_path(owner, w.token_file) {
                    refused(
                        b,
                        "token path "@ + w.token_file
                            + " is owner fallback token path; use dedicated role credential file"@,
                    )
                } else {
                    to(b, AddPhase::Token, AddAction::ReadToken(w.token_file))
                },
            }
        },
        (AddPhase::Token, AddReply::TokenFile { exists, text: file }) => {
            match token_before(w.token_file, exists, file) {
                Err(e) => refused(a, e),
                Ok(previous) => {
                    let b = Adding { previous, ..a };
                    match (previous, w.rotate_token, w.dry_run) {
                        (Some(t), false, _) => with_token(Adding { token: t, ..b }, text),
                        (_, _, true) => with_token(Adding { token: "<dry-run-token>"@, ..b }, text),
                        _ => match admin_path(w) {
                            Err(e) => refused(b, e),
                            Ok(p) => to(b, AddPhase::AdminForMint, AddAction::ReadAdminToken(p)),
                        },
                    }
                },
            }
        },
        (AddPhase::AdminForMint, AddReply::Text(file)) => match admin_path(w) {
            Err(e) => refused(a, e),
            Ok(p) => match token_in(p, file) {
                Err(e) => refused(a, e),
                Ok(admin_token) => to(
                    a,
                    AddPhase::Mint,
                    AddAction::Mint {
                        login: w.forgejo_login,
                        admin_token,
                        create_user: w.create_user,
                    },
                ),
            },
        },
        (AddPhase::Mint, AddReply::Outcome(Err(e))) => refused(a, e),
        (AddPhase::Mint, AddReply::Outcome(Ok(token))) => to(
            Adding { token, ..a },
            AddPhase::SaveToken,
            AddAction::SaveToken { path: w.token_file, text: token + "\n"@ },
        ),
        (AddPhase::SaveToken, AddReply::Outcome(Err(e))) => refused(a, e),
        (AddPhase::SaveToken, AddReply::Outcome(Ok(_))) => with_token(
            Adding { created: a.previous is None, ..a },
            text,
        ),
        (AddPhase::Identity, AddReply::Outcome(Err(e))) => refused(a, e),
        (AddPhase::Identity, AddReply::Outcome(Ok(login))) => if norm(login) != w.forgejo_login {
            refused(a, identity_fault(w.forgejo_login, norm(login)))
        } else {
            match admin_path(w) {
                Err(e) => refused(a, e),
                Ok(p) => to(a, AddPhase::AdminForAcl, AddAction::ReadAdminToken(p)),
            }
        },
        (AddPhase::AdminForAcl, AddReply::Text(file)) => match admin_path(w) {
            Err(e) => refused(a, e),
            Ok(p) => match token_in(p, file) {
                Err(e) => refused(a, e),
                Ok(admin_token) => if !known_permission(w.scream_permission) {
                    refused(
                        a,
                        "unsupported scream permission '"@ + w.scream_permission
                            + "'; use read/write/admin"@,
                    )
                } else {
                    to(
                        a,
                        AddPhase::Acl,
                        AddAction::PutCollaborator {
                            url: w.acl_url,
                            admin_token,
                            permission: w.scream_permission,
                        },
                    )
                },
            },
        },
        (AddPhase::Acl, AddReply::Outcome(Err(e))) => refused(a, e),
        (AddPhase::Acl, AddReply::Outcome(Ok(_))) => with_config(a, text),
        (AddPhase::Template, AddReply::Text(None)) => refused(
            a,
            "failed reading role template "@ + DEFAULT_ROLE_TEMPLATE@ + " (needed for "@
                + w.role_card_file + ")"@,
        ),
        (AddPhase::Template, AddReply::Text(Some(t))) => if w.dry_run {
            to(a, AddPhase::Over, AddAction::End(AddEnd::Planned))
        } else {
            to(
                a,
                AddPhase::WriteCard,
                AddAction::WriteCard {
                    path: w.role_card_file,
                    text: replaced(replaced(t, "{{role}}"@, w.role), "{{rank}}"@, w.rank),
                },
            )
        },
        (AddPhase::WriteCard, AddReply::Outcome(Err(e))) => rolled_back(a, e),
        (AddPhase::WriteCard, AddReply::Outcome(Ok(_))) => to(
            a,
            AddPhase::WriteConfig,
            AddAction::WriteConfig { path: w.config_path, text: a.config_after },
        ),
        (AddPhase::WriteConfig, AddReply::Outcome(Err(e))) => rolled_back(a, e),
        (AddPhase::WriteConfig, AddReply::Outcome(Ok(_))) => to(
            a,
            AddPhase::Reload,
            AddAction::Reload(w.config_path),
        ),
        (AddPhase::Reload, AddReply::Loaded(Err(e))) => rolled_back(a, e),
        (AddPhase::Reload, AddReply::Loaded(Ok(has))) => if has {
            to(a, AddPhase::TokenAgain, AddAction::ReadToken(w.token_file))
        } else {
            rolled_back(a, "new role '"@ + w.role + "' missing after config write"@)
        },
        (AddPhase::TokenAgain, AddReply::Text(file)) => match token_in(w.token_file, file) {
            Err(e) => rolled_back(a, e),
            Ok(token) => to(a, AddPhase::IdentityAgain, AddAction::Whoami { token }),
        },
        (AddPhase::IdentityAgain, AddReply::Outcome(Err(e))) => rolled_back(a, e),
        (AddPhase::IdentityAgain, AddReply::Outcome(Ok(login))) => if norm(login)
            != w.forgejo_login {
            rolled_back(a, identity_fault(w.forgejo_login, norm(login)))
        } else {
            to(a, AddPhase::Check, AddAction::CheckRole)
        },
        (AddPhase::Check, AddReply::Sound(sound)) => if sound {
            to(a, AddPhase::Over, AddAction::End(AddEnd::Added))
        } else {
            rolled_back(a, "new role '"@ + w.role + "' failed post-write role check"@)
        },
        _ => arbitrary(),
    }
}

/// The view of a step.
pub open spec fn step_view(r: (Adding<String>, AddAction<String>)) -> (
    Adding<Seq<char>>,
    AddAction<Seq<char>>,
) {
    (adding_view(r.0), action_view(r.1))
}

/// The step follows the answer; where the configuration as it will be was made, it is the one that was read
/// with the role that is wanted.
pub open spec fn follows(
    a: Adding<Seq<char>>,
    reply: AddReply<Seq<char>>,
    step: (Adding<Seq<char>>, AddAction<Seq<char>>),
) -> bool {
    exists|text: Result<Seq<char>, Seq<char>>|
        (renders_now(a, reply) ==> renders(a, text)) && step == #[trigger] next(a, reply, text)
}

/// Takes up the adding of a role, unless what was asked for is wrong.
pub fn begin_role_add(
    args: &RoleAddArgs<String>,
    roles: &Vec<DispatchRoleConfig>,
    envelopes: &DispatchPromptEnvelopeConfig,
) -> (r: Result<(Adding<String>, AddAction<String>), String>)
    ensures
        match wanted(
            args_view(*args),
            role_names(role_views(roles@)),
            envelopes.preamble_file@,
        ) {
            Err(e) => r matches Err(x) && x@ == e,
            Ok(w) => r matches Ok(s) && step_view(s) == (
                (Adding {
                    phase: AddPhase::Card,
                    wanted: w,
                    config_before: ""@,
                    config_after: ""@,
                    token: ""@,
                    previous: None,
                    created: false,
                }),
                AddAction::ProbeCard(w.role_card_file),
            ),
        },
{
    let role = match normalize_role_name(args.role.as_str()) {
        Ok(x) => x,
        Err(e) => {
            return Err(e);
        },
    };
    let rank = match normalize_rank(args.rank.as_str()) {
        Ok(x) => x,
        Err(e) => {
            return Err(e);
        },
    };
    if find_role(roles, role.as_str()).is_some() {
        return Err(cat3("role '", role.as_str(), "' already exists in dispatch config"));
    }
    let token_file = match resolve_role_token_path(&args.token_file, role.as_str(), &args.home) {
        Ok(x) => x,
        Err(e) => {
            return Err(e);
        },
    };
    let forgejo_login = normalize_name(args.forgejo_login.as_str());
    let codex_bin = match (&args.codex_bin, &args.any_codex_bin) {
        (Some(b), _) => b.clone(),
        (None, Some(b)) => b.clone(),
        (None, None) => DEFAULT_CODEX_BIN.to_owned(),
    };
    let role_card_file = envelopes.role_card_file_for(role.as_str());
    let base = str_trim_back_of(args.base_url.as_str(), "/");
    let acl_url = cat7(
        base,
        "/api/v1/repos/",
        args.scream_owner.as_str(),
        "/",
        args.scream_repo.as_str(),
        "/collaborators/",
        forgejo_login.as_str(),
    );
    let probe = role_card_file.clone();
    let codex_role_arg = role_arg(&args.codex_role_arg, role.as_str());
    let w = Wanted {
        role,
        rank,
        forgejo_login,
        codex_role_arg,
        token_file,
        codex_bin,
        role_card_file,
        config_path: args.config_path.clone(),
        can_dispatch: args.can_dispatch,
        create_user: args.create_user,
        rotate_token: args.rotate_token,
        dry_run: args.dry_run,
        admin_token_file: clone_opt(&args.admin_token_file),
        acl_url,
        scream_permission: normalize_name(args.scream_permission.as_str()),
        home: clone_opt(&args.home),
    };
    Ok(
        (
            Adding {
                phase: AddPhase::Card,
                wanted: w,
                config_before: "".to_owned(),
                config_after: "".to_owned(),
                token: "".to_owned(),
                previous: None,
                created: false,
            },
            AddAction::ProbeCard(probe),
        ),
    )
}

/// The adding goes on in the phase.
fn going(a: Adding<String>, phase: AddPhase, action: AddAction<String>) -> (r: (
    Adding<String>,
    AddAction<String>,
))
    ensures
        step_view(r) == to(adding_view(a), phase, action_view(action)),
{
    let mut b = a;
    b.phase = phase;
    (b, action)
}

/// The adding ends before anything but a token was written.
fn refusing(a: Adding<String>, error: String) -> (r: (Adding<String>, AddAction<String>))
    ensures
        step_view(r) == refused(adding_view(a), error@),
{
    going(a, AddPhase::Over, AddAction::End(AddEnd::Refused(error)))
}

/// The adding ends after a late step failed.
fn rolling_back(a: Adding<String>, error: String) -> (r: (Adding<String>, AddAction<String>))
    ensures
        step_view(r) == rolled_back(adding_view(a), error@),
{
    let config = match a.phase {
        AddPhase::WriteCard => None,
        AddPhase::WriteConfig => None,
        _ => Some(a.config_before.clone()),
    };
    let remove_card = a.phase != AddPhase::WriteCard;
    let token = if a.created {
        TokenUndo::Remove
    } else {
        match (a.wanted.rotate_token, &a.previous) {
            (true, Some(t)) => TokenUndo::Restore(t.clone()),
            _ => TokenUndo::Keep,
        }
    };
    going(a, AddPhase::Over, AddAction::End(AddEnd::RolledBack { error, config, remove_card, token }))
}

/// No configuration was made.
spec fn unmade() -> Result<Seq<char>, Seq<char>> {
    Err(Seq::empty())
}

/// The configuration as it will be: the one that was read, with the role that is wanted.
pub fn added_config(wanted: &Wanted<String>, config: &str) -> (r: Result<String, String>)
    ensures
        role_added(
            config@,
            new_role_of(wanted_view(*wanted)),
            wanted.can_dispatch,
            text_result(r),
        ),
{
    let new = NewRole {
        role: wanted.role.clone(),
        forgejo_login: wanted.forgejo_login.clone(),
        token_file: wanted.token_file.clone(),
        codex_bin: wanted.codex_bin.clone(),
        codex_role_arg: wanted.codex_role_arg.clone(),
    };
    proof {
        assert(new_role_view(new) == new_role_of(wanted_view(*wanted)));
    }
    render_role_added_config(config, &new, wanted.can_dispatch)
}

/// The next step with the configuration as it will be.
fn having_config(a: Adding<String>) -> (r: (Adding<String>, AddAction<String>))
    ensures
        exists|text: Result<Seq<char>, Seq<char>>|
            renders(adding_view(a), text) && step_view(r) == #[trigger] with_config(
                adding_view(a),
                text,
            ),
{
    let made = added_config(&a.wanted, a.config_before.as_str());
    let ghost text = text_result(made);
    let ghost before = adding_view(a);
    proof {
        assert(renders(before, text));
    }
    let r = match made {
        Err(e) => refusing(a, e),
        Ok(t) => {
            let mut b = a;
            b.config_after = t;
            going(b, AddPhase::Template, AddAction::ReadTemplate)
        },
    };
    proof {
        assert(step_view(r) == with_config(before, text));
    }
    r
}

/// The next step after the token is at hand.
fn having_token(a: Adding<String>) -> (r: (Adding<String>, AddAction<String>))
    ensures
        exists|text: Result<Seq<char>, Seq<char>>|
            (a.wanted.dry_run ==> renders(adding_view(a), text)) && step_view(r)
                == #[trigger] with_token(adding_view(a), text),
{
    let ghost before = adding_view(a);
    if a.wanted.dry_run {
        let r = having_config(a);
        proof {
            let text = choose|text: Result<Seq<char>, Seq<char>>|
                renders(before, text) && step_view(r) == #[trigger] with_config(before, text);
            assert(step_view(r) == with_token(before, text));
        }
        r
    } else {
        let token = a.token.clone();
        let r = going(a, AddPhase::Identity, AddAction::Whoami { token });
        proof {
            assert(step_view(r) == with_token(before, Ok(Seq::empty())));
        }
        r
    }
}

/// The step after the configuration was read.
fn config_read(a: Adding<String>, text: Option<String>) -> (r: (Adding<String>, AddAction<String>))
    requires
        a.phase == AddPhase::Config,
    ensures
        step_view(r) == next(adding_view(a), AddReply::Text(opt_view(text)), unmade()),
{
    let text = match text {
        Some(t) => t,
        None => {
            let m = cat2("failed reading ", a.wanted.config_path.as_str());
            return refusing(a, m);
        },
    };
    let mut b = a;
    b.config_before = text;
    if let Err(e) = assert_rank_defined(b.config_before.as_str(), b.wanted.rank.as_str()) {
        return refusing(b, e);
    }
    let owner = match owner_fallback_token_path(&b.wanted.home) {
        Ok(p) => p,
        Err(e) => {
            return refusing(b, e);
        },
    };
    if path_eq(owner.as_str(), b.wanted.token_file.as_str()) {
        let m = cat3(
            "token path ",
            b.wanted.token_file.as_str(),
            " is owner fallback token path; use dedicated role credential file",
        );
        return refusing(b, m);
    }
    let p = b.wanted.token_file.clone();
    going(b, AddPhase::Token, AddAction::ReadToken(p))
}

/// The step after the token's file was read.
fn token_read(a: Adding<String>, exists: bool, text: Option<String>) -> (r: (
    Adding<String>,
    AddAction<String>,
))
    requires
        a.phase == AddPhase::Token,
    ensures
        follows(
            adding_view(a),
            AddReply::TokenFile { exists, text: opt_view(text) },
            step_view(r),
        ),
{
    let ghost before = adding_view(a);
    let ghost reply = AddReply::TokenFile { exists, text: opt_view(text) };
    let ghost none = next(before, reply, unmade());
    let mut previous = None;
    if exists {
        match read_token_file(a.wanted.token_file.as_str(), &text) {
            Ok(t) => {
                previous = Some(t);
            },
            Err(e) => {
                return refusing(a, e);
            },
        }
    }
    let mut b = a;
    b.previous = previous;
    let keep = match (&b.previous, b.wanted.rotate_token) {
        (Some(t), false) => Some(t.clone()),
        _ => None,
    };
    let kept = keep.is_some();
    if let Some(t) = keep {
        b.token = t;
    } else if b.wanted.dry_run {
        b.token = "<dry-run-token>".to_owned();
    }
    if kept || b.wanted.dry_run {
        let ghost c = adding_view(b);
        let r = having_token(b);
        proof {
            let made = choose|made: Result<Seq<char>, Seq<char>>|
                (c.wanted.dry_run ==> renders(c, made)) && step_view(r) == #[trigger] with_token(
                    c,
                    made,
                );
            assert(step_view(r) == next(before, reply, made));
        }
        return r;
    }
    match read_admin_token(&b.wanted.admin_token_file, &b.wanted.home) {
        Err(e) => refusing(b, e),
        Ok(p) => going(b, AddPhase::AdminForMint, AddAction::ReadAdminToken(p)),
    }
}

/// The step after the administrator's token was read.
fn admin_read(a: Adding<String>, text: Option<String>) -> (r: (Adding<String>, AddAction<String>))
    requires
        a.phase == AddPhase::AdminForMint || a.phase == AddPhase::AdminForAcl,
    ensures
        step_view(r) == next(adding_view(a), AddReply::Text(opt_view(text)), unmade()),
{
    let path = match read_admin_token(&a.wanted.admin_token_file, &a.wanted.home) {
        Ok(p) => p,
        Err(e) => {
            return refusing(a, e);
        },
    };
    let admin_token = match read_token_file(path.as_str(), &text) {
        Ok(t) => t,
        Err(e) => {
            return refusing(a, e);
        },
    };
    if a.phase == AddPhase::AdminForMint {
        let login = a.wanted.forgejo_login.clone();
        let create_user = a.wanted.create_user;
        return going(a, AddPhase::Mint, AddAction::Mint { login, admin_token, create_user });
    }
    let permission = a.wanted.scream_permission.clone();
    let known = str_eq(permission.as_str(), "read") || str_eq(permission.as_str(), "write")
        || str_eq(permission.as_str(), "admin");
    if !known {
        let m = cat3(
            "unsupported scream permission '",
            permission.as_str(),
            "'; use read/write/admin",
        );
        return refusing(a, m);
    }
    let url = a.wanted.acl_url.clone();
    going(a, AddPhase::Acl, AddAction::PutCollaborator { url, admin_token, permission })
}

/// Whether the login is that of the role, or what is said where it is not.
fn identity(w: &Wanted<String>, login: &str) -> (r: Option<String>)
    ensures
        opt_view(r) == (if norm(login@) == w.forgejo_login@ {
            None
        } else {
            Some(identity_fault(w.forgejo_login@, norm(login@)))
        }),
{
    let found = normalize_name(login);
    if str_eq(found.as_str(), w.forgejo_login.as_str()) {
        None
    } else {
        Some(
            cat5(
                "token identity mismatch: expected '",
                w.forgejo_login.as_str(),
                "', got '",
                found.as_str(),
                "'",
            ),
        )
    }
}

/// The step after a call, up to the making of the configuration as it will be.
fn early_outcome(a: Adding<String>, text: String) -> (r: (Adding<String>, AddAction<String>))
    requires
        a.phase == AddPhase::Mint || a.phase == AddPhase::SaveToken || a.phase == AddPhase::Identity
            || a.phase == AddPhase::Acl,
    ensures
        follows(
            adding_view(a),
            AddReply::Outcome(Ok::<Seq<char>, Seq<char>>(text@)),
            step_view(r),
        ),
{
    let ghost before = adding_view(a);
    let ghost reply = AddReply::Outcome(Ok::<Seq<char>, Seq<char>>(text@));
    let ghost none = next(before, reply, unmade());
    match a.phase {
        AddPhase::Mint => {
            let mut b = a;
            let path = b.wanted.token_file.clone();
            let saved = secret_token_text(text.as_str());
            b.token = text;
            going(b, AddPhase::SaveToken, AddAction::SaveToken { path, text: saved })
        },
        AddPhase::SaveToken => {
            let mut b = a;
            b.created = b.previous.is_none();
            let ghost c = adding_view(b);
            let r = having_token(b);
            proof {
                let made = choose|made: Result<Seq<char>, Seq<char>>|
                    (c.wanted.dry_run ==> renders(c, made)) && step_view(r)
                        == #[trigger] with_token(c, made);
                assert(step_view(r) == next(before, reply, made));
            }
            r
        },
        AddPhase::Identity => {
            if let Some(m) = identity(&a.wanted, text.as_str()) {
                return refusing(a, m);
            }
            match read_admin_token(&a.wanted.admin_token_file, &a.wanted.home) {
                Err(e) => refusing(a, e),
                Ok(p) => going(a, AddPhase::AdminForAcl, AddAction::ReadAdminToken(p)),
            }
        },
        _ => {
            let r = having_config(a);
            proof {
                let made = choose|made: Result<Seq<char>, Seq<char>>|
                    renders(before, made) && step_view(r) == #[trigger] with_config(before, made);
                assert(step_view(r) == next(before, reply, made));
            }
            r
        },
    }
}

/// The step after the template of the card was read.
fn template_read(a: Adding<String>, text: Option<String>) -> (r: (Adding<String>, AddAction<String>))
    requires
        a.phase == AddPhase::Template,
    ensures
        step_view(r) == next(adding_view(a), AddReply::Text(opt_view(text)), unmade()),
{
    match render_role_card(
        a.wanted.role.as_str(),
        a.wanted.rank.as_str(),
        a.wanted.role_card_file.as_str(),
        &text,
    ) {
        Err(e) => refusing(a, e),
        Ok(card) => {
            if a.wanted.dry_run {
                return going(a, AddPhase::Over, AddAction::End(AddEnd::Planned));
            }
            let path = a.wanted.role_card_file.clone();
            going(a, AddPhase::WriteCard, AddAction::WriteCard { path, text: card })
        },
    }
}

/// The step after a call, from the writing of the card on.
fn late_outcome(a: Adding<String>, text: String) -> (r: (Adding<String>, AddAction<String>))
    requires
        a.phase == AddPhase::WriteCard || a.phase == AddPhase::WriteConfig || a.phase
            == AddPhase::IdentityAgain,
    ensures
        step_view(r) == next(
            adding_view(a),
            AddReply::Outcome(Ok::<Seq<char>, Seq<char>>(text@)),
            unmade(),
        ),
{
    match a.phase {
        AddPhase::WriteCard => {
            let path = a.wanted.config_path.clone();
            let after = a.config_after.clone();
            going(a, AddPhase::WriteConfig, AddAction::WriteConfig { path, text: after })
        },
        AddPhase::WriteConfig => {
            let path = a.wanted.config_path.clone();
            going(a, AddPhase::Reload, AddAction::Reload(path))
        },
        _ => {
            if let Some(m) = identity(&a.wanted, text.as_str()) {
                return rolling_back(a, m);
            }
            going(a, AddPhase::Check, AddAction::CheckRole)
        },
    }
}

/// Takes the adding of a role on by an answer.
pub fn role_add_command(a: Adding<String>, reply: AddReply<String>) -> (r: (
    Adding<String>,
    AddAction<String>,
))
    requires
        fits(a.phase, reply),
    ensures
        follows(adding_view(a), reply_view(reply), step_view(r)),
{
    let ghost none = next(adding_view(a), reply_view(reply), unmade());
    match reply {
        AddReply::Exists(there) => {
            if there {
                let m = cat4(
                    "role card already exists for role '",
                    a.wanted.role.as_str(),
                    "' at ",
                    a.wanted.role_card_file.as_str(),
                );
                refusing(a, m)
            } else {
                let p = a.wanted.config_path.clone();
                going(a, AddPhase::Config, AddAction::ReadConfig(p))
            }
        },
        AddReply::Text(text) => match a.phase {
            AddPhase::Config => config_read(a, text),
            AddPhase::Template => template_read(a, text),
            AddPhase::TokenAgain => {
                match read_token_file(a.wanted.token_file.as_str(), &text) {
                    Err(e) => rolling_back(a, e),
                    Ok(token) => going(a, AddPhase::IdentityAgain, AddAction::Whoami { token }),
                }
            },
            _ => admin_read(a, text),
        },
        AddReply::TokenFile { exists, text } => token_read(a, exists, text),
        AddReply::Outcome(outcome) => {
            let late = match a.phase {
                AddPhase::WriteCard => true,
                AddPhase::WriteConfig => true,
                AddPhase::IdentityAgain => true,
                _ => false,
            };
            match outcome {
                Err(e) => if late {
                    rolling_back(a, e)
                } else {
                    refusing(a, e)
                },
                Ok(text) => if late {
                    late_outcome(a, text)
                } else {
                    early_outcome(a, text)
                },
            }
        },
        AddReply::Loaded(loaded) => match loaded {
            Err(e) => rolling_back(a, e),
            Ok(true) => {
                let p = a.wanted.token_file.clone();
                going(a, AddPhase::TokenAgain, AddAction::ReadToken(p))
            },
            Ok(false) => {
                let m = cat3("new role '", a.wanted.role.as_str(), "' missing after config write");
                rolling_back(a, m)
            },
        },
        AddReply::Sound(sound) => {
            if sound {
                going(a, AddPhase::Over, AddAction::End(AddEnd::Added))
            } else {
                let m = cat3("new role '", a.wanted.role.as_str(), "' failed post-write role check");
                rolling_back(a, m)
            }
        },
    }
}

/// How many answers the adding of a role waits for at most.
pub open spec fn distance(phase: AddPhase) -> nat {
    match phase {
        AddPhase::Card => 16,
        AddPhase::Config => 15,
        AddPhase::Token => 14,
        AddPhase::AdminForMint => 13,
        AddPhase::Mint => 12,
        AddPhase::SaveToken => 11,
        AddPhase::Identity => 10,
        AddPhase::AdminForAcl => 9,
        AddPhase::Acl => 8,
        AddPhase::Template => 7,
        AddPhase::WriteCard => 6,
        AddPhase::WriteConfig => 5,
        AddPhase::Reload => 4,
        AddPhase::TokenAgain => 3,
        AddPhase::IdentityAgain => 2,
        AddPhase::Check => 1,
        AddPhase::Over => 0,
    }
}

/// The adding of a role comes to an end: each answer brings it closer.
pub proof fn law_role_adds_end(
    a: Adding<Seq<char>>,
    reply: AddReply<Seq<char>>,
    text: Result<Seq<char>, Seq<char>>,
)
    requires
        fits(a.phase, reply),
    ensures
        distance(next(a, reply, text).0.phase) < distance(a.phase),
        next(a, reply, text).0.phase == AddPhase::Over <==> next(a, reply, text).1 is End,
{
}

/// Where the adding fails once something was written, the configuration is put back as it was if it was
/// written, the card is removed if it was written, and the token's file is removed if it is new and put
/// back if it was changed.
pub proof fn law_failed_adds_are_undone(
    a: Adding<Seq<char>>,
    reply: AddReply<Seq<char>>,
    text: Result<Seq<char>, Seq<char>>,
)
    requires
        fits(a.phase, reply),
        distance(a.phase) <= distance(AddPhase::WriteCard),
        next(a, reply, text).1 matches AddAction::End(end) && end !is Added,
    ensures
        next(a, reply, text).1 matches AddAction::End(AddEnd::RolledBack { config, remove_card, token, .. })
            && {
            &&& config == (if distance(a.phase) < distance(AddPhase::WriteConfig) {
                Some(a.config_before)
            } else {
                None
            })
            &&& remove_card == (distance(a.phase) < distance(AddPhase::WriteCard))
            &&& a.created ==> token is Remove
            &&& !a.created && a.wanted.rotate_token ==> (a.previous matches Some(t) ==> token
                == TokenUndo::Restore(t))
            &&& !a.created && !a.wanted.rotate_token ==> token is Keep
        },
{
}

/// A dry run asks nothing of the forge and writes nothing.
pub proof fn law_dry_runs_change_nothing(
    a: Adding<Seq<char>>,
    reply: AddReply<Seq<char>>,
    text: Result<Seq<char>, Seq<char>>,
)
    requires
        fits(a.phase, reply),
        a.wanted.dry_run,
        a.phase == AddPhase::Card || a.phase == AddPhase::Config || a.phase == AddPhase::Token
            || a.phase == AddPhase::Template,
    ensures
        ({
            let p = next(a, reply, text).0.phase;
            let act = next(a, reply, text).1;
            &&& p == AddPhase::Config || p == AddPhase::Token || p == AddPhase::Template || p
                == AddPhase::Over
            &&& act is ReadConfig || act is ReadToken || act is ReadTemplate || act is End
            &&& next(a, reply, text).0.wanted == a.wanted
        }),
{
}

/// A role is added only where the forge took its token for its login, twice, and the check of the role
/// found nothing wrong.
pub proof fn law_added_roles_are_sound(
    a: Adding<Seq<char>>,
    reply: AddReply<Seq<char>>,
    text: Result<Seq<char>, Seq<char>>,
)
    requires
        fits(a.phase, reply),
    ensures
        next(a, reply, text).1 == AddAction::<Seq<char>>::End(AddEnd::Added) ==> a.phase == AddPhase::Check
            && reply == AddReply::<Seq<char>>::Sound(true),
        next(a, reply, text).0.phase == AddPhase::Check ==> a.phase == AddPhase::IdentityAgain
            && (reply matches AddReply::Outcome(Ok(login)) && norm(login) == a.wanted.forgejo_login),
        next(a, reply, text).0.phase == AddPhase::AdminForAcl ==> a.phase == AddPhase::Identity && (
        reply matches AddReply::Outcome(Ok(login)) && norm(login) == a.wanted.forgejo_login),
{
}

/// From the making of the configuration on, what it will be is what was read with the role that is wanted.
pub open spec fn config_is_kept(a: Adding<Seq<char>>) -> bool {
    0 < distance(a.phase) <= distance(AddPhase::Template) ==> renders(a, Ok(a.config_after))
}

/// What is written is the configuration that was read, with the role that is wanted: the adding keeps to it
/// at every step.
pub proof fn law_written_configs_have_the_role(
    a: Adding<Seq<char>>,
    reply: AddReply<Seq<char>>,
    text: Result<Seq<char>, Seq<char>>,
)
    requires
        fits(a.phase, reply),
        config_is_kept(a),
        renders_now(a, reply) ==> renders(a, text),
    ensures
        config_is_kept(next(a, reply, text).0),
        next(a, reply, text).0.wanted == a.wanted,
        next(a, reply, text).1 matches AddAction::WriteConfig { path, text: written } ==> path
            == a.wanted.config_path && renders(a, Ok(written)),
{
}

/// Tells whether the forge's user must be made before a token can be, which must have been allowed.
pub fn user_must_be_made(exists: bool, create_user: bool, login: &str) -> (r: Result<bool, String>)
    ensures
        match r {
            Ok(make) => make == !exists && (make ==> create_user),
            Err(e) => !exists && !create_user && e@ == "forgejo user '"@ + login@
                + "' does not exist; rerun with --create-user to provision"@,
        },
{
    if exists {
        return Ok(false);
    }
    if !create_user {
        return Err(
            cat3(
                "forgejo user '",
                login,
                "' does not exist; rerun with --create-user to provision",
            ),
        );
    }
    Ok(true)
}

/// Where the forge keeps its users: one, all for an administrator, one for an administrator, and the
/// tokens of one.
pub fn user_urls(base_url: &str, login: &str) -> (r: (String, String, String, String))
    ensures
        ({
            let base = trim_back_of(base_url@, "/"@);
            &&& r.0@ == base + "/api/v1/users/"@ + login@
            &&& r.1@ == base + "/api/v1/admin/users"@
            &&& r.2@ == base + "/api/v1/admin/users/"@ + login@
            &&& r.3@ == base + "/api/v1/users/"@ + login@ + "/tokens"@
        }),
{
    let base = str_trim_back_of(base_url, "/");
    (
        cat3(base, "/api/v1/users/", login),
        cat2(base, "/api/v1/admin/users"),
        cat3(base, "/api/v1/admin/users/", login),
        cat4(base, "/api/v1/users/", login, "/tokens"),
    )
}

/// The adding of a role goes its way: the card must not be there, the token must not be the owner's, and a
/// token is minted exactly where there is none or a new one is asked for; the forge must take it for the
/// login, the permission must be a known one, and then the card, the configuration and the check follow.
pub proof fn law_role_adds_go_their_way(
    a: Adding<Seq<char>>,
    file: Seq<char>,
    text: Result<Seq<char>, Seq<char>>,
)
    ensures
        ({
            let w = a.wanted;
            &&& a.phase == AddPhase::Card ==> (next(a, AddReply::Exists(true), text).1 matches
                AddAction::End(AddEnd::Refused(_))) && next(a, AddReply::Exists(false), text).1
                == AddAction::<Seq<char>>::ReadConfig(w.config_path)
            &&& a.phase == AddPhase::Token && trim(file).len() > 0 && !w.rotate_token && !w.dry_run
                ==> next(a, AddReply::TokenFile { exists: true, text: Some(file) }, text).1 == (
            AddAction::<Seq<char>>::Whoami { token: trim(file) })
            &&& a.phase == AddPhase::Token && !w.dry_run && w.admin_token_file is Some ==> ({
                let n = next(a, AddReply::TokenFile { exists: false, text: None }, text);
                &&& n.1 is ReadAdminToken || n.1 is End
                &&& n.0.previous is None
            })
            &&& a.phase == AddPhase::Token && trim(file).len() > 0 && w.rotate_token && !w.dry_run ==> ({
                let n = next(a, AddReply::TokenFile { exists: true, text: Some(file) }, text);
                &&& n.1 is ReadAdminToken || n.1 is End
                &&& n.0.previous == Some(trim(file))
            })
            &&& a.phase == AddPhase::Mint ==> next(a, AddReply::Outcome(Ok(file)), text).1 == (
            AddAction::<Seq<char>>::SaveToken { path: w.token_file, text: file + "\n"@ }) && next(
                a,
                AddReply::Outcome(Ok(file)),
                text,
            ).0.token == file
            &&& a.phase == AddPhase::SaveToken && !w.dry_run ==> next(
                a,
                AddReply::Outcome(Ok(file)),
                text,
            ).1 == (AddAction::<Seq<char>>::Whoami { token: a.token }) && (next(
                a,
                AddReply::Outcome(Ok(file)),
                text,
            ).0.created <==> a.previous is None)
            &&& a.phase == AddPhase::Identity && norm(file) != w.forgejo_login ==> (next(
                a,
                AddReply::Outcome(Ok(file)),
                text,
            ).1 matches AddAction::End(AddEnd::Refused(_)))
            &&& a.phase == AddPhase::Template && !w.dry_run ==> next(
                a,
                AddReply::Text(Some(file)),
                text,
            ).1 == (AddAction::<Seq<char>>::WriteCard {
                path: w.role_card_file,
                text: replaced(replaced(file, "{{role}}"@, w.role), "{{rank}}"@, w.rank),
            })
            &&& a.phase == AddPhase::Template && w.dry_run ==> next(
                a,
                AddReply::Text(Some(file)),
                text,
            ).1 == AddAction::<Seq<char>>::End(AddEnd::Planned)
            &&& a.phase == AddPhase::WriteCard ==> next(a, AddReply::Outcome(Ok(file)), text).1 == (
            AddAction::<Seq<char>>::WriteConfig { path: w.config_path, text: a.config_after })
            &&& a.phase == AddPhase::WriteConfig ==> next(a, AddReply::Outcome(Ok(file)), text).1
                == AddAction::<Seq<char>>::Reload(w.config_path)
            &&& a.phase == AddPhase::Reload ==> next(a, AddReply::Loaded(Ok(true)), text).1
                == AddAction::<Seq<char>>::ReadToken(w.token_file) && (next(
                a,
                AddReply::Loaded(Ok(false)),
                text,
            ).1 matches AddAction::End(AddEnd::RolledBack { .. }))
            &&& a.phase == AddPhase::IdentityAgain ==> (if norm(file) == w.forgejo_login {
                next(a, AddReply::Outcome(Ok(file)), text).1 is CheckRole
            } else {
                next(a, AddReply::Outcome(Ok(file)), text).1 matches AddAction::End(
                    AddEnd::RolledBack { .. },
                )
            })
            &&& a.phase == AddPhase::Check ==> next(a, AddReply::Sound(true), text).1 == AddAction::<
                Seq<char>,
            >::End(AddEnd::Added) && (next(a, AddReply::Sound(false), text).1 matches AddAction::End(
                AddEnd::RolledBack { .. },
            ))
        }),
{
}

/// What refuses the adding of a role is known before anything is written, and a failure before that point
/// only refuses.
pub proof fn law_early_failures_only_refuse(
    a: Adding<Seq<char>>,
    e: Seq<char>,
    text: Result<Seq<char>, Seq<char>>,
)
    ensures
        a.phase == AddPhase::Mint || a.phase == AddPhase::SaveToken || a.phase == AddPhase::Identity
            || a.phase == AddPhase::Acl ==> next(a, AddReply::Outcome(Err(e)), text).1 == AddAction::<
            Seq<char>,
        >::End(AddEnd::Refused(e)),
        a.phase == AddPhase::Config || a.phase == AddPhase::Template || a.phase
            == AddPhase::AdminForMint || a.phase == AddPhase::AdminForAcl ==> (next(
            a,
            AddReply::Text(None),
            text,
        ).1 matches AddAction::End(AddEnd::Refused(_))),
{
}

/// The forge is asked to let the login into the repository for screams, with the permission that was asked
/// for, and only with one that it knows.
pub proof fn law_only_known_permissions_are_given(
    a: Adding<Seq<char>>,
    file: Option<Seq<char>>,
    text: Result<Seq<char>, Seq<char>>,
)
    requires
        a.phase == AddPhase::AdminForAcl,
    ensures
        next(a, AddReply::Text(file), text).1 matches AddAction::PutCollaborator {
            url,
            permission,
            admin_token,
        } ==> url == a.wanted.acl_url && permission == a.wanted.scream_permission && (permission
            == "read"@ || permission == "write"@ || permission == "admin"@) && (file matches Some(t)
            && admin_token == trim(t)),
        a.wanted.scream_permission != "read"@ && a.wanted.scream_permission != "write"@
            && a.wanted.scream_permission != "admin"@ ==> (next(a, AddReply::Text(file), text).1 matches
            AddAction::End(AddEnd::Refused(_))),
{
}

/// A role that is wanted has the normal form of what was asked for: the login in lower case, an argument
/// that defaults to the name without its prefix, and a card under its own name. One that the configuration
/// has is refused.
pub proof fn law_wanted_roles_are_in_normal_form(
    a: RoleAddArgs<Seq<char>>,
    names: Seq<Seq<char>>,
    preamble: Seq<char>,
)
    ensures
        wanted(a, names, preamble) matches Ok(w) ==> {
            &&& role_name(a.role) == Ok::<Seq<char>, Seq<char>>(w.role)
            &&& rank_name(a.rank) == Ok::<Seq<char>, Seq<char>>(w.rank)
            &&& !names.contains(w.role)
            &&& w.forgejo_login == norm(a.forgejo_login)
            &&& a.codex_role_arg matches Some(x) ==> w.codex_role_arg == norm(x)
            &&& a.codex_role_arg is None && !"codex-"@.is_prefix_of(w.role) ==> w.codex_role_arg == w.role
            &&& a.codex_bin matches Some(b) ==> w.codex_bin == b
            &&& w.role_card_file == card_path(preamble, w.role)
            &&& w.config_path == a.config_path
            &&& w.can_dispatch == a.can_dispatch
            &&& w.create_user == a.create_user
            &&& w.rotate_token == a.rotate_token
            &&& w.dry_run == a.dry_run
            &&& w.scream_permission == norm(a.scream_permission)
        },
        role_name(a.role) matches Ok(role) ==> (names.contains(role) ==> wanted(a, names, preamble)
            is Err),
{
    if let Ok(role) = role_name(a.role) {
        crate::text::lemma_first_at(names, role);
    }
}

/// What is asked for is what is waited for, and nothing after the end; what is wanted stays.
pub proof fn law_role_adds_wait_for_what_they_ask(
    a: Adding<Seq<char>>,
    reply: AddReply<Seq<char>>,
    text: Result<Seq<char>, Seq<char>>,
)
    requires
        fits(a.phase, reply),
    ensures
        ({
            let n = next(a, reply, text);
            let p = n.0.phase;
            &&& n.1 is ReadConfig <==> p == AddPhase::Config
            &&& n.1 is ReadToken <==> p == AddPhase::Token || p == AddPhase::TokenAgain
            &&& n.1 is ReadAdminToken <==> p == AddPhase::AdminForMint || p == AddPhase::AdminForAcl
            &&& n.1 is Mint <==> p == AddPhase::Mint
            &&& n.1 is SaveToken <==> p == AddPhase::SaveToken
            &&& n.1 is Whoami <==> p == AddPhase::Identity || p == AddPhase::IdentityAgain
            &&& n.1 is PutCollaborator <==> p == AddPhase::Acl
            &&& n.1 is ReadTemplate <==> p == AddPhase::Template
            &&& n.1 is WriteCard <==> p == AddPhase::WriteCard
            &&& n.1 is WriteConfig <==> p == AddPhase::WriteConfig
            &&& n.1 is Reload <==> p == AddPhase::Reload
            &&& n.1 is CheckRole <==> p == AddPhase::Check
            &&& n.1 is End <==> p == AddPhase::Over
            &&& p == AddPhase::Token ==> a.phase == AddPhase::Config
            &&& p == AddPhase::TokenAgain ==> a.phase == AddPhase::Reload
            &&& p == AddPhase::AdminForMint ==> a.phase == AddPhase::Token
            &&& p == AddPhase::AdminForAcl ==> a.phase == AddPhase::Identity
            &&& p == AddPhase::IdentityAgain ==> a.phase == AddPhase::TokenAgain
            &&& p == AddPhase::Identity ==> a.phase == AddPhase::Token || a.phase == AddPhase::SaveToken
            &&& n.0.wanted == a.wanted
        }),
{
}

/// A token is minted for the login by the administrator, with a new user only where that was allowed.
pub proof fn law_tokens_are_minted_by_the_administrator(
    a: Adding<Seq<char>>,
    file: Option<Seq<char>>,
    text: Result<Seq<char>, Seq<char>>,
)
    requires
        a.phase == AddPhase::AdminForMint,
    ensures
        next(a, AddReply::Text(file), text).1 matches AddAction::Mint { login, admin_token, create_user }
            ==> login == a.wanted.forgejo_login && create_user == a.wanted.create_user && (
        file matches Some(t) && admin_token == trim(t) && admin_token.len() > 0),
        file is None ==> next(a, AddReply::Text(file), text).1 is End,
        file matches Some(t) ==> (trim(t).len() == 0 ==> next(a, AddReply::Text(file), text).1 is End),
{
}

/// The argument of a role that is not given is its name without the prefix of agents.
pub proof fn law_arguments_of_roles_are_short(
    a: RoleAddArgs<Seq<char>>,
    names: Seq<Seq<char>>,
    preamble: Seq<char>,
    rest: Seq<char>,
)
    ensures
        wanted(a, names, preamble) matches Ok(w) ==> (a.codex_role_arg is None && w.role == "codex-"@ + rest
            ==> w.codex_role_arg == rest),
        wanted(a, names, preamble) matches Ok(w) ==> (a.codex_bin is None ==> (a.any_codex_bin matches Some(
            b,
        ) ==> w.codex_bin == b)),
        wanted(a, names, preamble) matches Ok(w) ==> w.admin_token_file == a.admin_token_file && w.home
            == a.home,
{
    crate::text::law_prefixes_come_off("codex-"@, rest);
}

} // verus!
