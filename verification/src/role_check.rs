//! The check of the roles: what is wrong with one, from what its files and the forge say of it.

use crate::config_load::{find_role, name_set};
use crate::dispatch_config::{role_names, role_views, DispatchRoleConfig};
use crate::envelopes::{card_path, DispatchPromptEnvelopeConfig};
use crate::names::in_order;
use crate::role::{
    card_rank_name, expected_admin_for_role, normalize_name, parse_rank_from_role_card,
    read_token_file, token_in,
};
use crate::text::{
    add_text, cat2, cat3, cat5, has_key, lines, norm, opt_view, push_char, str_eq, views,
};
use vstd::prelude::*;
use vstd::string::*;

verus! {

/// The octal notation of a number.
pub open spec fn octal(n: nat) -> Seq<char>
    decreases n,
{
    if n < 8 {
        seq![crate::text::digit(n)]
    } else {
        octal(n / 8).push(crate::text::digit(n % 8))
    }
}

/// The octal notation of `n`.
pub fn octal_text(n: u32) -> (r: String)
    ensures
        r@ == octal(n as nat),
    decreases n,
{
    if n < 8 {
        let mut out: String = String::new();
        push_char(&mut out, (48 + (n as u8)) as char);
        proof {
            assert(out@ =~= octal(n as nat));
        }
        out
    } else {
        let mut out = octal_text(n / 8);
        push_char(&mut out, (48 + ((n % 8) as u8)) as char);
        out
    }
}

/// A user of the forge.
pub struct ForgejoUser {
    pub login: String,
    pub is_admin: bool,
    pub active: bool,
}

/// What was found out about a role. The card and the token are what their files hold, None where they
/// cannot be read; the mode is that of the token's file; `whoami` is whom the forge takes the token for,
/// and `user` the user of the role's login, where there is one. Either may have failed, with what was
/// said.
pub struct RoleFacts {
    pub card: Option<String>,
    pub token: Option<String>,
    pub mode: Option<u32>,
    pub whoami: Result<String, String>,
    pub user: Result<Option<ForgejoUser>, String>,
}

/// The result of the check of one role.
pub struct RoleCheckSummary {
    pub role: String,
    pub forgejo_login: String,
    pub token_file: String,
    pub role_card_file: String,
    pub expected_rank: Option<String>,
    pub token_login: Option<String>,
    pub user_active: Option<bool>,
    pub user_admin: Option<bool>,
    pub errors: Vec<String>,
    pub warnings: Vec<String>,
}

/// One text where there is one.
pub open spec fn maybe(t: Option<Seq<char>>) -> Seq<Seq<char>> {
    match t {
        Some(x) => seq![x],
        None => Seq::empty(),
    }
}

/// What is wrong with the card.
pub open spec fn card_fault(card: Option<String>, card_file: Seq<char>) -> Option<Seq<char>> {
    match card {
        None => Some("role card: failed reading role card "@ + card_file),
        Some(_) => None,
    }
}

/// What is wrong with the token's file.
pub open spec fn token_fault(token: Option<String>, token_file: Seq<char>) -> Option<Seq<char>> {
    match token_in(token_file, opt_view(token)) {
        Err(e) => Some("token file: "@ + e),
        Ok(_) => None,
    }
}

/// What is wrong with the mode of the token's file: others may not have any right.
pub open spec fn mode_fault(mode: Option<u32>) -> Option<Seq<char>> {
    match mode {
        Some(m) if m % 64 != 0 => Some(
            "token file mode "@ + octal((m % 512) as nat)
                + " is too permissive; expected 600 or stricter"@,
        ),
        _ => None,
    }
}

/// Whom the forge takes the token for, where there is a token.
pub open spec fn token_login(f: RoleFacts, token_file: Seq<char>) -> Option<
    Result<Seq<char>, Seq<char>>,
> {
    match (token_in(token_file, opt_view(f.token)), f.whoami) {
        (Err(_), _) => None,
        (Ok(_), Ok(login)) => Some(Ok(norm(login@))),
        (Ok(_), Err(e)) => Some(Err(e@)),
    }
}

/// What is wrong with whom the forge takes the token for.
pub open spec fn login_fault(f: RoleFacts, token_file: Seq<char>, login: Seq<char>) -> Option<
    Seq<char>,
> {
    match token_login(f, token_file) {
        None => None,
        Some(Err(e)) => Some("token whoami failed: "@ + e),
        Some(Ok(l)) => if l != login {
            Some("token resolves to '"@ + l + "' but role forgejo_login is '"@ + login + "'"@)
        } else {
            None
        },
    }
}

/// The words for a flag.
pub open spec fn flag_word(b: bool) -> Seq<char> {
    if b {
        "true"@
    } else {
        "false"@
    }
}

/// The user of the role is to administer the forge.
pub open spec fn administers(role: Seq<char>) -> bool {
    role == "main"@ || role == "codex-orch"@
}

/// What is wrong with the user of the role.
pub open spec fn user_faults(f: RoleFacts, role: Seq<char>, login: Seq<char>) -> Seq<Seq<char>> {
    match f.user {
        Err(_) => Seq::empty(),
        Ok(None) => seq!["forgejo user does not exist"@],
        Ok(Some(u)) => maybe(
            if norm(u.login@) != login {
                Some(
                    "forgejo user lookup resolved '"@ + u.login@ + "' instead of '"@ + login + "'"@,
                )
            } else {
                None
            },
        ) + maybe(
            if !u.active {
                Some("forgejo user is inactive"@)
            } else {
                None
            },
        ) + maybe(
            if u.is_admin != administers(role) {
                Some(
                    "forgejo admin flag mismatch (expected "@ + flag_word(administers(role))
                        + ", got "@ + flag_word(u.is_admin) + ")"@,
                )
            } else {
                None
            },
        ),
    }
}

/// What is wrong with what is here of a role: its card, its token and the mode of the token's file.
pub open spec fn local_faults(
    card: Option<String>,
    token: Option<String>,
    mode: Option<u32>,
    token_file: Seq<char>,
    card_file: Seq<char>,
) -> Seq<Seq<char>> {
    maybe(card_fault(card, card_file)) + maybe(token_fault(token, token_file)) + maybe(
        mode_fault(mode),
    )
}

/// What is wrong with a role.
pub open spec fn role_faults(f: RoleFacts, c: DispatchRoleConfig, card_file: Seq<char>) -> Seq<
    Seq<char>,
> {
    local_faults(f.card, f.token, f.mode, c.token_file@, card_file) + maybe(
        login_fault(f, c.token_file@, c.forgejo_login@),
    ) + user_faults(f, c.name@, c.forgejo_login@)
}

/// What is worth a word on a role, and not wrong.
pub open spec fn role_warnings(f: RoleFacts) -> Seq<Seq<char>> {
    match f.user {
        Err(e) => seq!["forgejo user lookup failed: "@ + e@],
        Ok(_) => Seq::empty(),
    }
}

/// The word for a flag.
fn flag_text(b: bool) -> (r: &'static str)
    ensures
        r@ == flag_word(b),
{
    if b {
        "true"
    } else {
        "false"
    }
}

/// What is wrong with the user of the role.
fn add_user_faults(errors: &mut Vec<String>, user: &ForgejoUser, role: &str, login: &str)
    ensures
        forall|f: RoleFacts|
            f.user == Ok::<Option<ForgejoUser>, String>(Some(*user)) ==> views(final(errors)@)
                == views(old(errors)@) + #[trigger] user_faults(f, role@, login@),
{
    let ghost start = views(errors@);
    let found = normalize_name(user.login.as_str());
    if !str_eq(found.as_str(), login) {
        add_text(
            errors,
            cat5(
                "forgejo user lookup resolved '",
                user.login.as_str(),
                "' instead of '",
                login,
                "'",
            ),
        );
    }
    if !user.active {
        add_text(errors, "forgejo user is inactive".to_owned());
    }
    let expected = expected_admin_for_role(role);
    if user.is_admin != expected {
        add_text(
            errors,
            cat5(
                "forgejo admin flag mismatch (expected ",
                flag_text(expected),
                ", got ",
                flag_text(user.is_admin),
                ")",
            ),
        );
    }
    proof {
        assert forall|f: RoleFacts|
            f.user == Ok::<Option<ForgejoUser>, String>(Some(*user)) implies views(errors@) == start
            + #[trigger] user_faults(f, role@, login@) by {
            assert(views(errors@) =~= start + user_faults(f, role@, login@));
        }
    }
}

/// Checks what is here of a role, without asking the forge.
pub fn check_role_offline(
    config: &DispatchRoleConfig,
    envelopes: &DispatchPromptEnvelopeConfig,
    card: &Option<String>,
    token: &Option<String>,
    mode: Option<u32>,
) -> (r: RoleCheckSummary)
    ensures
        r.role@ == config.name@,
        r.forgejo_login@ == config.forgejo_login@,
        r.token_file@ == config.token_file@,
        r.role_card_file@ == card_path(envelopes.preamble_file@, config.name@),
        opt_view(r.expected_rank) == (match *card {
            Some(t) => card_rank_name(lines(t@)),
            None => None,
        }),
        r.token_login is None,
        r.user_active is None,
        r.user_admin is None,
        views(r.errors@) == local_faults(
            *card,
            *token,
            mode,
            config.token_file@,
            card_path(envelopes.preamble_file@, config.name@),
        ),
        r.warnings@.len() == 0,
{
    let role_card_file = envelopes.role_card_file_for(config.name.as_str());
    let mut errors: Vec<String> = Vec::new();
    proof {
        assert(views(errors@) =~= Seq::<Seq<char>>::empty());
    }
    let expected_rank = match card {
        Some(t) => parse_rank_from_role_card(t.as_str()),
        None => {
            add_text(
                &mut errors,
                cat2("role card: failed reading role card ", role_card_file.as_str()),
            );
            None
        },
    };
    match read_token_file(config.token_file.as_str(), token) {
        Ok(_) => {},
        Err(e) => add_text(&mut errors, cat2("token file: ", e.as_str())),
    }
    if let Some(m) = mode {
        if m % 64 != 0 {
            let o = octal_text(m % 512);
            add_text(
                &mut errors,
                cat3(
                    "token file mode ",
                    o.as_str(),
                    " is too permissive; expected 600 or stricter",
                ),
            );
        }
    }
    proof {
        assert(views(errors@) =~= local_faults(
            *card,
            *token,
            mode,
            config.token_file@,
            card_path(envelopes.preamble_file@, config.name@),
        ));
    }
    RoleCheckSummary {
        role: config.name.clone(),
        forgejo_login: config.forgejo_login.clone(),
        token_file: config.token_file.clone(),
        role_card_file,
        expected_rank,
        token_login: None,
        user_active: None,
        user_admin: None,
        errors,
        warnings: Vec::new(),
    }
}

/// Checks a role.
pub fn check_role(
    config: &DispatchRoleConfig,
    envelopes: &DispatchPromptEnvelopeConfig,
    facts: &RoleFacts,
) -> (r: RoleCheckSummary)
    ensures
        r.role@ == config.name@,
        r.forgejo_login@ == config.forgejo_login@,
        r.token_file@ == config.token_file@,
        r.role_card_file@ == card_path(envelopes.preamble_file@, config.name@),
        opt_view(r.expected_rank) == (match facts.card {
            Some(t) => card_rank_name(lines(t@)),
            None => None,
        }),
        opt_view(r.token_login) == (match token_login(*facts, config.token_file@) {
            Some(Ok(l)) => Some(l),
            _ => None,
        }),
        r.user_active == (match facts.user {
            Ok(Some(u)) => Some(u.active),
            _ => None,
        }),
        r.user_admin == (match facts.user {
            Ok(Some(u)) => Some(u.is_admin),
            _ => None,
        }),
        views(r.errors@) == role_faults(
            *facts,
            *config,
            card_path(envelopes.preamble_file@, config.name@),
        ),
        views(r.warnings@) == role_warnings(*facts),
{
    let here = check_role_offline(config, envelopes, &facts.card, &facts.token, facts.mode);
    let mut errors: Vec<String> = here.errors;
    let mut warnings: Vec<String> = here.warnings;
    let ghost local = views(errors@);
    let has_token = read_token_file(config.token_file.as_str(), &facts.token).is_ok();
    let mut token_login = None;
    if has_token {
        match &facts.whoami {
            Ok(login) => {
                let l = normalize_name(login.as_str());
                if !str_eq(l.as_str(), config.forgejo_login.as_str()) {
                    add_text(
                        &mut errors,
                        cat5(
                            "token resolves to '",
                            l.as_str(),
                            "' but role forgejo_login is '",
                            config.forgejo_login.as_str(),
                            "'",
                        ),
                    );
                }
                token_login = Some(l);
            },
            Err(e) => add_text(&mut errors, cat2("token whoami failed: ", e.as_str())),
        }
    }
    let ghost so_far = views(errors@);
    proof {
        assert(so_far =~= local + maybe(
            login_fault(*facts, config.token_file@, config.forgejo_login@),
        ));
    }
    let mut user_active: Option<bool> = None;
    let mut user_admin: Option<bool> = None;
    match &facts.user {
        Ok(Some(user)) => {
            add_user_faults(
                &mut errors,
                user,
                config.name.as_str(),
                config.forgejo_login.as_str(),
            );
            user_active = Some(user.active);
            user_admin = Some(user.is_admin);
        },
        Ok(None) => {
            add_text(&mut errors, "forgejo user does not exist".to_owned());
        },
        Err(e) => {
            add_text(&mut warnings, cat2("forgejo user lookup failed: ", e.as_str()));
        },
    }
    proof {
        assert(views(errors@) =~= so_far + user_faults(
            *facts,
            config.name@,
            config.forgejo_login@,
        ));
        assert(views(warnings@) =~= role_warnings(*facts));
    }
    RoleCheckSummary {
        role: config.name.clone(),
        forgejo_login: config.forgejo_login.clone(),
        token_file: config.token_file.clone(),
        role_card_file: here.role_card_file,
        expected_rank: here.expected_rank,
        token_login,
        user_active,
        user_admin,
        errors,
        warnings,
    }
}

/// The roles that are checked: all in the order of their names, or the one that was asked for.
pub fn roles_to_check(roles: &Vec<DispatchRoleConfig>, filter: &Option<String>) -> (r: Vec<String>)
    ensures
        views(r@) == (match opt_view(*filter) {
            None => in_order(role_names(role_views(roles@)).to_set()),
            Some(f) => if has_key(role_names(role_views(roles@)), f) {
                seq![f]
            } else {
                Seq::empty()
            },
        }),
{
    match filter {
        Some(f) => {
            let mut out: Vec<String> = Vec::new();
            proof {
                assert(views(out@) =~= Seq::<Seq<char>>::empty());
            }
            if find_role(roles, f.as_str()).is_some() {
                add_text(&mut out, f.clone());
                proof {
                    assert(views(out@) =~= seq![f@]);
                }
            }
            out
        },
        None => {
            let set = name_set(roles);
            proof {
                set.lemma_listed();
            }
            set.items
        },
    }
}

/// How the check of the roles ends.
pub fn role_check_verdict(checks: &Vec<RoleCheckSummary>, filter: &Option<String>) -> (r: Result<
    (),
    String,
>)
    ensures
        match r {
            Ok(_) => checks@.len() > 0 && forall|i: int|
                0 <= i < checks@.len() ==> (#[trigger] checks@[i]).errors@.len() == 0,
            Err(e) => if checks@.len() == 0 {
                e@ == (match *filter {
                    Some(f) => "role '"@ + norm(f@) + "' not found in dispatch config"@,
                    None => "no roles found in dispatch config"@,
                })
            } else {
                e@ == "role check failed"@ && exists|i: int|
                    0 <= i < checks@.len() && (#[trigger] checks@[i]).errors@.len() > 0
            },
        },
{
    if checks.len() == 0 {
        return match filter {
            Some(f) => {
                let name = normalize_name(f.as_str());
                Err(cat3("role '", name.as_str(), "' not found in dispatch config"))
            },
            None => Err("no roles found in dispatch config".to_owned()),
        };
    }
    let mut i: usize = 0;
    while i < checks.len()
        invariant
            i <= checks@.len(),
            forall|k: int| 0 <= k < i ==> (#[trigger] checks@[k]).errors@.len() == 0,
        decreases checks.len() - i,
    {
        if checks[i].errors.len() > 0 {
            return Err("role check failed".to_owned());
        }
        i = i + 1;
    }
    Ok(())
}

/// A role without faults has a token that the forge takes for its login, and a user of that login that
/// is active and administers the forge exactly where it should, where the user could be looked up.
pub proof fn law_sound_roles_act_as_themselves(
    f: RoleFacts,
    c: DispatchRoleConfig,
    card_file: Seq<char>,
)
    requires
        role_faults(f, c, card_file).len() == 0,
    ensures
        token_login(f, c.token_file@) == Some(Ok::<Seq<char>, Seq<char>>(c.forgejo_login@)),
        f.mode matches Some(m) ==> m % 64 == 0,
        f.user is Ok ==> (f.user matches Ok(Some(u)) && u.active && norm(u.login@)
            == c.forgejo_login@ && u.is_admin == administers(c.name@)),
{
    let a = maybe(card_fault(f.card, card_file));
    let b = maybe(token_fault(f.token, c.token_file@));
    let m = maybe(mode_fault(f.mode));
    let l = maybe(login_fault(f, c.token_file@, c.forgejo_login@));
    let u = user_faults(f, c.name@, c.forgejo_login@);
    assert(role_faults(f, c, card_file).len() == a.len() + b.len() + m.len() + l.len() + u.len());
}

/// A role is without faults exactly where its card can be read, its token is there and only for its own,
/// the forge takes the token for its login, and its user, as far as that could be looked up, is there,
/// active, of that login and an administrator exactly where it should be: the owner and the orchestrator.
pub proof fn law_sound_roles_have_no_faults(
    f: RoleFacts,
    c: DispatchRoleConfig,
    card_file: Seq<char>,
)
    ensures
        role_faults(f, c, card_file).len() == 0 <==> f.card is Some && (f.token matches Some(t)
            && crate::text::trim(t@).len() > 0) && (f.mode matches Some(m) ==> m % 64 == 0) && (
        f.whoami matches Ok(l) && norm(l@) == c.forgejo_login@) && (match f.user {
            Err(_) => true,
            Ok(None) => false,
            Ok(Some(u)) => norm(u.login@) == c.forgejo_login@ && u.active && (u.is_admin <==> (c.name@
                == "main"@ || c.name@ == "codex-orch"@)),
        }),
        role_warnings(f).len() > 0 <==> f.user is Err,
{
    let a = maybe(card_fault(f.card, card_file));
    let b = maybe(token_fault(f.token, c.token_file@));
    let m = maybe(mode_fault(f.mode));
    let l = maybe(login_fault(f, c.token_file@, c.forgejo_login@));
    let u = user_faults(f, c.name@, c.forgejo_login@);
    assert(role_faults(f, c, card_file).len() == a.len() + b.len() + m.len() + l.len() + u.len());
}

/// Each thing that is wrong with a role is told by itself.
pub proof fn law_each_fault_is_told(f: RoleFacts, c: DispatchRoleConfig, card_file: Seq<char>)
    ensures
        f.card is None ==> role_faults(f, c, card_file).contains(
            "role card: failed reading role card "@ + card_file,
        ),
        f.user == Ok::<Option<ForgejoUser>, String>(None) ==> role_faults(f, c, card_file).contains(
            "forgejo user does not exist"@,
        ),
        f.user matches Ok(Some(u)) ==> (!u.active ==> role_faults(f, c, card_file).contains(
            "forgejo user is inactive"@,
        )),
{
    let local = local_faults(f.card, f.token, f.mode, c.token_file@, card_file);
    let l = maybe(login_fault(f, c.token_file@, c.forgejo_login@));
    let u = user_faults(f, c.name@, c.forgejo_login@);
    let all = role_faults(f, c, card_file);
    if f.card is None {
        assert(all[0] == "role card: failed reading role card "@ + card_file);
    }
    let base = local.len() + l.len();
    assert forall|k: int| 0 <= k < u.len() implies #[trigger] u[k] == all[base + k] by {}
    if f.user == Ok::<Option<ForgejoUser>, String>(None) {
        assert(u[0] == "forgejo user does not exist"@);
        assert(all[base as int] == u[0]);
    }
    if let Ok(Some(x)) = f.user {
        if !x.active {
            let k = if norm(x.login@) != c.forgejo_login@ {
                1int
            } else {
                0int
            };
            assert(u[k] == "forgejo user is inactive"@);
            assert(all[base + k] == u[k]);
        }
    }
}

} // verus!
