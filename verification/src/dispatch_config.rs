//! The dispatch config: its parts as the file writes them, and what they compile to.

use crate::paths::{path_eq, same_path};
use crate::text::{cat5, cat7, norm, opt_view, str_eq, str_norm};
use vstd::prelude::*;
use vstd::string::*;

verus! {

/// An agent role.
pub struct DispatchRoleConfig {
    pub name: String,
    pub codex_bin: String,
    pub codex_role_arg: String,
    pub forgejo_login: String,
    pub token_file: String,
}

/// A role, field by field.
pub struct RoleSpec {
    pub name: Seq<char>,
    pub codex_bin: Seq<char>,
    pub codex_role_arg: Seq<char>,
    pub forgejo_login: Seq<char>,
    pub token_file: Seq<char>,
}

/// The view of a role.
pub open spec fn role_view(r: DispatchRoleConfig) -> RoleSpec {
    RoleSpec {
        name: r.name@,
        codex_bin: r.codex_bin@,
        codex_role_arg: r.codex_role_arg@,
        forgejo_login: r.forgejo_login@,
        token_file: r.token_file@,
    }
}

/// The views of roles.
pub open spec fn role_views(v: Seq<DispatchRoleConfig>) -> Seq<RoleSpec> {
    v.map_values(|r: DispatchRoleConfig| role_view(r))
}

/// The names of roles.
pub open spec fn role_names(v: Seq<RoleSpec>) -> Seq<Seq<char>> {
    v.map_values(|r: RoleSpec| r.name)
}

/// The earlier role that has the token file.
pub open spec fn token_owner(earlier: Seq<RoleSpec>, token: Seq<char>) -> Option<Seq<char>>
    decreases earlier.len(),
{
    if earlier.len() == 0 {
        None
    } else if token_owner(earlier.drop_last(), token) is Some {
        token_owner(earlier.drop_last(), token)
    } else if same_path(earlier.last().token_file, token) {
        Some(earlier.last().name)
    } else {
        None
    }
}

/// The earlier role that has the login.
pub open spec fn login_owner(earlier: Seq<RoleSpec>, login: Seq<char>) -> Option<Seq<char>>
    decreases earlier.len(),
{
    if earlier.len() == 0 {
        None
    } else if login_owner(earlier.drop_last(), login) is Some {
        login_owner(earlier.drop_last(), login)
    } else if norm(earlier.last().forgejo_login) == login {
        Some(earlier.last().name)
    } else {
        None
    }
}

/// What is wrong with the mapping of a role, given the roles before it: a token or a login may serve
/// one role only, a login is neither empty nor the owner's, a token is not the owner's.
pub open spec fn mapping_fault(
    path: Seq<char>,
    earlier: Seq<RoleSpec>,
    role: RoleSpec,
    owner_token: Option<Seq<char>>,
) -> Option<Seq<char>> {
    let login = norm(role.forgejo_login);
    if token_owner(earlier, role.token_file) is Some {
        Some(
            "dispatch config "@ + path + " roles '"@ + token_owner(earlier, role.token_file)->0
                + "' and '"@ + role.name + "' share token_file "@ + role.token_file,
        )
    } else if login.len() == 0 {
        Some("dispatch config "@ + path + " role '"@ + role.name + "' has empty forgejo_login"@)
    } else if login == "main"@ {
        Some(
            "dispatch config "@ + path + " role '"@ + role.name
                + "' uses forbidden forgejo_login 'main'; use a dedicated role principal"@,
        )
    } else if login_owner(earlier, login) is Some {
        Some(
            "dispatch config "@ + path + " roles '"@ + login_owner(earlier, login)->0 + "' and '"@
                + role.name + "' share forgejo_login '"@ + login + "'"@,
        )
    } else if owner_token is Some && same_path(role.token_file, owner_token->0) {
        Some(
            "dispatch config "@ + path + " role '"@ + role.name + "' token_file "@
                + role.token_file
                + " points to owner fallback token; use dedicated role token under ~/.config/forgejo-agent/creds/"@,
        )
    } else {
        None
    }
}

/// What is wrong with the first bad mapping of a role.
pub open spec fn roles_fault(
    path: Seq<char>,
    roles: Seq<RoleSpec>,
    owner_token: Option<Seq<char>>,
) -> Option<Seq<char>>
    decreases roles.len(),
{
    if roles.len() == 0 {
        None
    } else if roles_fault(path, roles.drop_last(), owner_token) is Some {
        roles_fault(path, roles.drop_last(), owner_token)
    } else {
        mapping_fault(path, roles.drop_last(), roles.last(), owner_token)
    }
}

/// What is wrong with the token mappings of a config.
pub open spec fn mappings_fault(
    path: Seq<char>,
    roles: Seq<RoleSpec>,
    control_token: Option<Seq<char>>,
    owner_token: Option<Seq<char>>,
) -> Option<Seq<char>> {
    if roles_fault(path, roles, owner_token) is Some {
        roles_fault(path, roles, owner_token)
    } else {
        match control_token {
            None => None,
            Some(token) => if owner_token is Some && same_path(token, owner_token->0) {
                Some(
                    "dispatch config "@ + path + " control_plane token_file "@ + token
                        + " points to owner fallback token; use dedicated machine token under ~/.config/forgejo-agent/creds/"@,
                )
            } else if token_owner(roles, token) is Some {
                Some(
                    "dispatch config "@ + path + " control_plane token_file "@ + token
                        + " is shared with role '"@ + token_owner(roles, token)->0 + "'"@,
                )
            } else {
                None
            },
        }
    }
}

/// Once a mapping is bad, further roles do not mend it.
proof fn lemma_roles_fault(
    path: Seq<char>,
    roles: Seq<RoleSpec>,
    owner_token: Option<Seq<char>>,
    i: int,
)
    requires
        0 <= i <= roles.len(),
        roles_fault(path, roles.take(i), owner_token) is Some,
    ensures
        roles_fault(path, roles, owner_token) == roles_fault(path, roles.take(i), owner_token),
    decreases roles.len(),
{
    if i == roles.len() {
        assert(roles.take(i) =~= roles);
    } else {
        assert(roles.drop_last().take(i) =~= roles.take(i));
        lemma_roles_fault(path, roles.drop_last(), owner_token, i);
    }
}

/// The role among the first `n` that has the token file.
fn find_token_owner(roles: &Vec<DispatchRoleConfig>, n: usize, token: &str) -> (r: Option<String>)
    requires
        n <= roles@.len(),
    ensures
        opt_view(r) == token_owner(role_views(roles@).take(n as int), token@),
{
    let ghost all = role_views(roles@);
    let mut i: usize = 0;
    while i < n
        invariant
            i <= n <= roles@.len(),
            all == role_views(roles@),
            token_owner(all.take(i as int), token@) is None,
        decreases n - i,
    {
        proof {
            assert(all.take(i + 1).drop_last() =~= all.take(i as int));
            assert(all.take(i + 1).last() == role_view(roles@[i as int]));
        }
        if path_eq(roles[i].token_file.as_str(), token) {
            proof {
                lemma_token_owner_stays(all, i + 1, n as int, token@);
            }
            return Some(roles[i].name.clone());
        }
        i = i + 1;
    }
    None
}

/// The first owner of a token among some roles is the first among more of them.
proof fn lemma_token_owner_stays(roles: Seq<RoleSpec>, i: int, n: int, token: Seq<char>)
    requires
        0 <= i <= n <= roles.len(),
        token_owner(roles.take(i), token) is Some,
    ensures
        token_owner(roles.take(n), token) == token_owner(roles.take(i), token),
    decreases n,
{
    if i < n {
        assert(roles.take(n).drop_last() =~= roles.take(n - 1));
        lemma_token_owner_stays(roles, i, n - 1, token);
    }
}

/// The role among the first `n` that has the login.
fn find_login_owner(roles: &Vec<DispatchRoleConfig>, n: usize, login: &str) -> (r: Option<String>)
    requires
        n <= roles@.len(),
    ensures
        opt_view(r) == login_owner(role_views(roles@).take(n as int), login@),
{
    let ghost all = role_views(roles@);
    let mut i: usize = 0;
    while i < n
        invariant
            i <= n <= roles@.len(),
            all == role_views(roles@),
            login_owner(all.take(i as int), login@) is None,
        decreases n - i,
    {
        proof {
            assert(all.take(i + 1).drop_last() =~= all.take(i as int));
            assert(all.take(i + 1).last() == role_view(roles@[i as int]));
        }
        if str_eq(str_norm(roles[i].forgejo_login.as_str()).as_str(), login) {
            proof {
                lemma_login_owner_stays(all, i + 1, n as int, login@);
            }
            return Some(roles[i].name.clone());
        }
        i = i + 1;
    }
    None
}

/// The first owner of a login among some roles is the first among more of them.
proof fn lemma_login_owner_stays(roles: Seq<RoleSpec>, i: int, n: int, login: Seq<char>)
    requires
        0 <= i <= n <= roles.len(),
        login_owner(roles.take(i), login) is Some,
    ensures
        login_owner(roles.take(n), login) == login_owner(roles.take(i), login),
    decreases n,
{
    if i < n {
        assert(roles.take(n).drop_last() =~= roles.take(n - 1));
        lemma_login_owner_stays(roles, i, n - 1, login);
    }
}

/// Checks the mapping of one role against those before it.
fn check_mapping(
    config_path: &str,
    roles: &Vec<DispatchRoleConfig>,
    n: usize,
    owner_token: &Option<String>,
) -> (r: Option<String>)
    requires
        n < roles@.len(),
    ensures
        opt_view(r) == mapping_fault(
            config_path@,
            role_views(roles@).take(n as int),
            role_view(roles@[n as int]),
            opt_view(*owner_token),
        ),
{
    let role = &roles[n];
    if let Some(other) = find_token_owner(roles, n, role.token_file.as_str()) {
        let mut m = cat7(
            "dispatch config ",
            config_path,
            " roles '",
            other.as_str(),
            "' and '",
            role.name.as_str(),
            "' share token_file ",
        );
        m.append(role.token_file.as_str());
        return Some(m);
    }
    let login = str_norm(role.forgejo_login.as_str());
    if login.as_str().is_empty() {
        return Some(
            cat5(
                "dispatch config ",
                config_path,
                " role '",
                role.name.as_str(),
                "' has empty forgejo_login",
            ),
        );
    }
    if str_eq(login.as_str(), "main") {
        return Some(
            cat5(
                "dispatch config ",
                config_path,
                " role '",
                role.name.as_str(),
                "' uses forbidden forgejo_login 'main'; use a dedicated role principal",
            ),
        );
    }
    if let Some(other) = find_login_owner(roles, n, login.as_str()) {
        let mut m = cat7(
            "dispatch config ",
            config_path,
            " roles '",
            other.as_str(),
            "' and '",
            role.name.as_str(),
            "' share forgejo_login '",
        );
        m.append(login.as_str());
        m.append("'");
        return Some(m);
    }
    if let Some(owner) = owner_token {
        if path_eq(role.token_file.as_str(), owner.as_str()) {
            return Some(
                cat7(
                    "dispatch config ",
                    config_path,
                    " role '",
                    role.name.as_str(),
                    "' token_file ",
                    role.token_file.as_str(),
                    " points to owner fallback token; use dedicated role token under ~/.config/forgejo-agent/creds/",
                ),
            );
        }
    }
    None
}

/// Checks that tokens and logins are dedicated: none is shared, none is the owner's.
pub fn validate_role_mappings(
    config_path: &str,
    roles: &Vec<DispatchRoleConfig>,
    control_token: &Option<String>,
    owner_token: &Option<String>,
) -> (r: Result<(), String>)
    ensures
        match mappings_fault(
            config_path@,
            role_views(roles@),
            opt_view(*control_token),
            opt_view(*owner_token),
        ) {
            None => r is Ok,
            Some(m) => r matches Err(e) && e@ == m,
        },
{
    let ghost all = role_views(roles@);
    let mut i: usize = 0;
    while i < roles.len()
        invariant
            i <= roles@.len(),
            all == role_views(roles@),
            roles_fault(config_path@, all.take(i as int), opt_view(*owner_token)) is None,
        decreases roles.len() - i,
    {
        proof {
            assert(all.take(i + 1).drop_last() =~= all.take(i as int));
            assert(all.take(i + 1).last() == role_view(roles@[i as int]));
        }
        if let Some(m) = check_mapping(config_path, roles, i, owner_token) {
            proof {
                lemma_roles_fault(config_path@, all, opt_view(*owner_token), i + 1);
            }
            return Err(m);
        }
        i = i + 1;
    }
    proof {
        assert(all.take(all.len() as int) =~= all);
    }
    if let Some(token) = control_token {
        if let Some(owner) = owner_token {
            if path_eq(token.as_str(), owner.as_str()) {
                return Err(
                    cat5(
                        "dispatch config ",
                        config_path,
                        " control_plane token_file ",
                        token.as_str(),
                        " points to owner fallback token; use dedicated machine token under ~/.config/forgejo-agent/creds/",
                    ),
                );
            }
        }
        if let Some(other) = find_token_owner(roles, roles.len(), token.as_str()) {
            return Err(
                cat7(
                    "dispatch config ",
                    config_path,
                    " control_plane token_file ",
                    token.as_str(),
                    " is shared with role '",
                    other.as_str(),
                    "'",
                ),
            );
        }
    }
    Ok(())
}


/// A token that some role has has an owner.
proof fn lemma_token_owner_found(roles: Seq<RoleSpec>, i: int, token: Seq<char>)
    requires
        0 <= i < roles.len(),
        same_path(roles[i].token_file, token),
    ensures
        token_owner(roles, token) is Some,
    decreases roles.len(),
{
    if i < roles.len() - 1 {
        lemma_token_owner_found(roles.drop_last(), i, token);
    }
}

/// A login that some role has has an owner.
proof fn lemma_login_owner_found(roles: Seq<RoleSpec>, i: int, login: Seq<char>)
    requires
        0 <= i < roles.len(),
        norm(roles[i].forgejo_login) == login,
    ensures
        login_owner(roles, login) is Some,
    decreases roles.len(),
{
    if i < roles.len() - 1 {
        lemma_login_owner_found(roles.drop_last(), i, login);
    }
}

/// Roles without a fault have tokens and logins of their own, none of them the owner's.
pub proof fn law_role_credentials_are_dedicated(
    path: Seq<char>,
    roles: Seq<RoleSpec>,
    owner_token: Option<Seq<char>>,
)
    requires
        roles_fault(path, roles, owner_token) is None,
    ensures
        forall|i: int, j: int|
            0 <= i < j < roles.len() ==>
                !same_path((#[trigger] roles[i]).token_file, (#[trigger] roles[j]).token_file),
        forall|i: int, j: int|
            0 <= i < j < roles.len() ==>
                norm((#[trigger] roles[i]).forgejo_login) != norm((#[trigger] roles[j]).forgejo_login),
        forall|i: int|
            0 <= i < roles.len() ==>
                norm((#[trigger] roles[i]).forgejo_login).len() > 0 &&
                norm(roles[i].forgejo_login) != "main"@,
        forall|i: int|
            0 <= i < roles.len() && owner_token is Some ==>
                !same_path((#[trigger] roles[i]).token_file, owner_token->0),
    decreases roles.len(),
{
    if roles.len() > 0 {
        let p = roles.drop_last();
        law_role_credentials_are_dedicated(path, p, owner_token);
        assert forall|i: int, j: int|
            0 <= i < j < roles.len() implies
                !same_path((#[trigger] roles[i]).token_file, (#[trigger] roles[j]).token_file) by {
            assert(p[i] == roles[i]);
            if j < roles.len() - 1 {
                assert(p[j] == roles[j]);
            } else if same_path(roles[i].token_file, roles[j].token_file) {
                lemma_token_owner_found(p, i, roles[j].token_file);
            }
        }
        assert forall|i: int, j: int|
            0 <= i < j < roles.len() implies
                norm((#[trigger] roles[i]).forgejo_login) != norm((#[trigger] roles[j]).forgejo_login) by {
            assert(p[i] == roles[i]);
            if j < roles.len() - 1 {
                assert(p[j] == roles[j]);
            } else if norm(roles[i].forgejo_login) == norm(roles[j].forgejo_login) {
                lemma_login_owner_found(p, i, norm(roles[j].forgejo_login));
            }
        }
        assert forall|i: int|
            0 <= i < roles.len() implies
                norm((#[trigger] roles[i]).forgejo_login).len() > 0 &&
                norm(roles[i].forgejo_login) != "main"@ by {
            if i < roles.len() - 1 {
                assert(p[i] == roles[i]);
            }
        }
        assert forall|i: int|
            0 <= i < roles.len() && owner_token is Some implies
                !same_path((#[trigger] roles[i]).token_file, owner_token->0) by {
            if i < roles.len() - 1 {
                assert(p[i] == roles[i]);
            }
        }
    }
}

/// The control plane of a config without a fault has a token of its own, which is not the owner's.
pub proof fn law_control_plane_token_is_dedicated(
    path: Seq<char>,
    roles: Seq<RoleSpec>,
    control_token: Seq<char>,
    owner_token: Option<Seq<char>>,
)
    requires
        mappings_fault(path, roles, Some(control_token), owner_token) is None,
    ensures
        forall|i: int| 0 <= i < roles.len() ==> !same_path((#[trigger] roles[i]).token_file, control_token),
        owner_token is Some ==> !same_path(control_token, owner_token->0),
{
    assert forall|i: int|
        0 <= i < roles.len() implies
            !same_path((#[trigger] roles[i]).token_file, control_token) by {
        if same_path(roles[i].token_file, control_token) {
            lemma_token_owner_found(roles, i, control_token);
        }
    }
}

/// Roles whose tokens and logins are their own are let through: nothing else is held against them.
pub proof fn law_dedicated_credentials_are_let_through(
    path: Seq<char>,
    roles: Seq<RoleSpec>,
    control_token: Option<Seq<char>>,
    owner_token: Option<Seq<char>>,
)
    requires
        forall|i: int, j: int|
            0 <= i < j < roles.len() ==> !same_path(
                (#[trigger] roles[i]).token_file,
                (#[trigger] roles[j]).token_file,
            ),
        forall|i: int, j: int|
            0 <= i < j < roles.len() ==> norm((#[trigger] roles[i]).forgejo_login) != norm(
                (#[trigger] roles[j]).forgejo_login,
            ),
        forall|i: int|
            0 <= i < roles.len() ==> norm((#[trigger] roles[i]).forgejo_login).len() > 0 && norm(
                roles[i].forgejo_login,
            ) != "main"@,
        forall|i: int|
            0 <= i < roles.len() && owner_token is Some ==> !same_path(
                (#[trigger] roles[i]).token_file,
                owner_token->0,
            ),
        control_token matches Some(t) ==> (owner_token is Some ==> !same_path(t, owner_token->0))
            && forall|i: int|
            0 <= i < roles.len() ==> !same_path((#[trigger] roles[i]).token_file, t),
    ensures
        mappings_fault(path, roles, control_token, owner_token) is None,
{
    lemma_no_roles_fault(path, roles, owner_token);
    if let Some(t) = control_token {
        lemma_no_token_owner(roles, t);
    }
}

/// A token that no role has has no owner.
proof fn lemma_no_token_owner(roles: Seq<RoleSpec>, token: Seq<char>)
    requires
        forall|i: int| 0 <= i < roles.len() ==> !same_path((#[trigger] roles[i]).token_file, token),
    ensures
        token_owner(roles, token) is None,
    decreases roles.len(),
{
    if roles.len() > 0 {
        let p = roles.drop_last();
        assert forall|i: int| 0 <= i < p.len() implies !same_path(
            (#[trigger] p[i]).token_file,
            token,
        ) by {
            assert(roles[i] == p[i]);
        }
        lemma_no_token_owner(p, token);
        assert(roles[roles.len() - 1] == roles.last());
    }
}

/// A login that no role has has no owner.
proof fn lemma_no_login_owner(roles: Seq<RoleSpec>, login: Seq<char>)
    requires
        forall|i: int| 0 <= i < roles.len() ==> norm((#[trigger] roles[i]).forgejo_login) != login,
    ensures
        login_owner(roles, login) is None,
    decreases roles.len(),
{
    if roles.len() > 0 {
        let p = roles.drop_last();
        assert forall|i: int| 0 <= i < p.len() implies norm((#[trigger] p[i]).forgejo_login)
            != login by {
            assert(roles[i] == p[i]);
        }
        lemma_no_login_owner(p, login);
        assert(roles[roles.len() - 1] == roles.last());
    }
}

/// Roles whose tokens and logins are their own have no fault.
proof fn lemma_no_roles_fault(path: Seq<char>, roles: Seq<RoleSpec>, owner_token: Option<Seq<char>>)
    requires
        forall|i: int, j: int|
            0 <= i < j < roles.len() ==> !same_path(
                (#[trigger] roles[i]).token_file,
                (#[trigger] roles[j]).token_file,
            ),
        forall|i: int, j: int|
            0 <= i < j < roles.len() ==> norm((#[trigger] roles[i]).forgejo_login) != norm(
                (#[trigger] roles[j]).forgejo_login,
            ),
        forall|i: int|
            0 <= i < roles.len() ==> norm((#[trigger] roles[i]).forgejo_login).len() > 0 && norm(
                roles[i].forgejo_login,
            ) != "main"@,
        forall|i: int|
            0 <= i < roles.len() && owner_token is Some ==> !same_path(
                (#[trigger] roles[i]).token_file,
                owner_token->0,
            ),
    ensures
        roles_fault(path, roles, owner_token) is None,
    decreases roles.len(),
{
    if roles.len() > 0 {
        let p = roles.drop_last();
        let n = roles.len() - 1;
        assert forall|i: int| 0 <= i < p.len() implies #[trigger] p[i] == roles[i] by {}
        assert forall|i: int, j: int| 0 <= i < j < p.len() implies !same_path(
            (#[trigger] p[i]).token_file,
            (#[trigger] p[j]).token_file,
        ) by {
            assert(p[i] == roles[i] && p[j] == roles[j]);
        }
        assert forall|i: int, j: int| 0 <= i < j < p.len() implies norm(
            (#[trigger] p[i]).forgejo_login,
        ) != norm((#[trigger] p[j]).forgejo_login) by {
            assert(p[i] == roles[i] && p[j] == roles[j]);
        }
        lemma_no_roles_fault(path, p, owner_token);
        assert(roles[n] == roles.last());
        assert forall|i: int| 0 <= i < p.len() implies !same_path(
            (#[trigger] p[i]).token_file,
            roles[n].token_file,
        ) by {
            assert(p[i] == roles[i]);
        }
        assert forall|i: int| 0 <= i < p.len() implies norm((#[trigger] p[i]).forgejo_login) != norm(
            roles[n].forgejo_login,
        ) by {
            assert(p[i] == roles[i]);
        }
        lemma_no_token_owner(p, roles[n].token_file);
        lemma_no_login_owner(p, norm(roles[n].forgejo_login));
    }
}

} // verus!
