//! Compiles a dispatch config from its file.

use crate::acl_compile::{
    acl_compiled, card_of, card_verdict, compile_rank_acl_config, read_role_card_rank, role_sets,
    CompiledAcl, RankAclFile, RoleCard,
};
use crate::dispatch_config::{
    mappings_fault, role_names, role_view, role_views, validate_role_mappings, DispatchRoleConfig,
    RoleSpec,
};
use crate::envelopes::DispatchPromptEnvelopeConfig;
use crate::names::{in_order, NameSet};
use crate::paths::{parent_of, path_parent, resolve_config_path, resolved};
use crate::rank_acl::DispatchRankAclConfig;
use crate::text::{
    after_prefix, cat2, cat3, cat4, cat5, first_at, has_key, lemma_first_at, lemma_first_at_is,
    lower, norm, opt_view, str_eq, str_lower, str_norm, str_strip_prefix, str_trim, trim,
    u64_text, views,
};
use crate::triggers::{
    compile_registered_trigger, legacy_trigger_pack, legacy_triggers, trigger_compiled,
    trigger_view, trigger_views, DispatchTriggerConfig, TriggerFile, TriggerSpec,
};
use crate::types::{repo_parts, repo_text, RepoRef};
use vstd::prelude::*;
use vstd::string::*;

verus! {

/// A role as the file writes it.
pub struct RoleFile {
    pub name: String,
    pub codex_bin: String,
    pub codex_role_arg: Option<String>,
    pub forgejo_login: Option<String>,
    pub token_file: String,
}

/// The argument that a role name gives the agent: the name without its `codex-` prefix.
pub open spec fn role_arg(role: Seq<char>) -> Seq<char> {
    match after_prefix(role, "codex-"@) {
        Some(rest) => rest,
        None => role,
    }
}

/// The argument that a role name gives the agent.
pub fn codex_role_arg(role_name: &str) -> (r: String)
    ensures
        r@ == role_arg(role_name@),
{
    match str_strip_prefix(role_name, "codex-") {
        Some(rest) => rest.to_owned(),
        None => role_name.to_owned(),
    }
}

/// A role of the file, or what is wrong with its paths.
pub open spec fn role_read(f: RoleFile, base: Seq<char>, home: Option<Seq<char>>) -> Result<
    RoleSpec,
    Seq<char>,
> {
    let name = lower(f.name@);
    match resolved(base, f.codex_bin@, home) {
        Err(e) => Err(e),
        Ok(codex_bin) => match resolved(base, f.token_file@, home) {
            Err(e) => Err(e),
            Ok(token_file) => Ok(
                RoleSpec {
                    name,
                    codex_bin,
                    codex_role_arg: match f.codex_role_arg {
                        Some(a) => a@,
                        None => role_arg(name),
                    },
                    forgejo_login: match f.forgejo_login {
                        Some(l) => l@,
                        None => name,
                    },
                    token_file,
                },
            ),
        },
    }
}

/// The roles with one more; it takes the place of an earlier one of its name.
pub open spec fn put_role(roles: Seq<RoleSpec>, role: RoleSpec) -> Seq<RoleSpec> {
    if has_key(role_names(roles), role.name) {
        roles.update(first_at(role_names(roles), role.name), role)
    } else {
        roles.push(role)
    }
}

/// The roles read so far with those of `rest`, or what is wrong with the first bad one.
pub open spec fn roles_read(
    done: Seq<RoleSpec>,
    rest: Seq<RoleFile>,
    base: Seq<char>,
    home: Option<Seq<char>>,
) -> Result<Seq<RoleSpec>, Seq<char>>
    decreases rest.len(),
{
    if rest.len() == 0 {
        Ok(done)
    } else {
        match role_read(rest[0], base, home) {
            Err(e) => Err(e),
            Ok(role) => roles_read(put_role(done, role), rest.drop_first(), base, home),
        }
    }
}

/// Reads the roles of a config.
pub fn read_roles(files: &Vec<RoleFile>, base: &str, home: &Option<String>) -> (r: Result<
    Vec<DispatchRoleConfig>,
    String,
>)
    ensures
        match roles_read(Seq::empty(), files@, base@, opt_view(*home)) {
            Ok(s) => r matches Ok(v) && role_views(v@) == s,
            Err(m) => r matches Err(e) && e@ == m,
        },
{
    let mut out: Vec<DispatchRoleConfig> = Vec::new();
    let ghost goal = roles_read(Seq::empty(), files@, base@, opt_view(*home));
    let mut i: usize = 0;
    proof {
        assert(files@.skip(0) =~= files@);
        assert(role_views(out@) =~= Seq::<RoleSpec>::empty());
    }
    while i < files.len()
        invariant
            i <= files@.len(),
            goal == roles_read(Seq::empty(), files@, base@, opt_view(*home)),
            roles_read(role_views(out@), files@.skip(i as int), base@, opt_view(*home)) == goal,
        decreases files.len() - i,
    {
        let ghost before = role_views(out@);
        proof {
            assert(files@.skip(i as int)[0] == files@[i as int]);
            assert(files@.skip(i as int).drop_first() =~= files@.skip(i + 1));
        }
        let f = &files[i];
        let name = str_lower(f.name.as_str());
        let codex_bin = match resolve_config_path(base, f.codex_bin.as_str(), home) {
            Ok(p) => p,
            Err(e) => {
                return Err(e);
            },
        };
        let token_file = match resolve_config_path(base, f.token_file.as_str(), home) {
            Ok(p) => p,
            Err(e) => {
                return Err(e);
            },
        };
        let arg = match &f.codex_role_arg {
            Some(a) => a.clone(),
            None => codex_role_arg(name.as_str()),
        };
        let login = match &f.forgejo_login {
            Some(l) => l.clone(),
            None => name.clone(),
        };
        let at = find_role(&out, name.as_str());
        let role = DispatchRoleConfig {
            name,
            codex_bin,
            codex_role_arg: arg,
            forgejo_login: login,
            token_file,
        };
        let ghost added = role_view(role);
        match at {
            Some(k) => {
                out.set(k, role);
            },
            None => {
                out.push(role);
            },
        }
        proof {
            assert(role_views(out@) =~= put_role(before, added));
        }
        i = i + 1;
    }
    Ok(out)
}

/// The index of the role of the name.
pub fn find_role(roles: &Vec<DispatchRoleConfig>, name: &str) -> (r: Option<usize>)
    ensures
        r is Some <==> has_key(role_names(role_views(roles@)), name@),
        r matches Some(i) ==> i < roles@.len() && i == first_at(
            role_names(role_views(roles@)),
            name@,
        ) && roles@[i as int].name@ == name@,
{
    let ghost keys = role_names(role_views(roles@));
    let mut i: usize = 0;
    while i < roles.len()
        invariant
            i <= roles@.len(),
            keys == role_names(role_views(roles@)),
            forall|k: int| 0 <= k < i ==> #[trigger] keys[k] != name@,
        decreases roles.len() - i,
    {
        proof {
            assert(keys[i as int] == roles@[i as int].name@);
        }
        if str_eq(roles[i].name.as_str(), name) {
            proof {
                lemma_first_at_is(keys, name@, i as int);
            }
            return Some(i);
        }
        i = i + 1;
    }
    proof {
        lemma_first_at_is(keys, name@, i as int);
    }
    None
}

/// A directive of the config.
pub struct DispatchDirectiveConfig {
    pub name: String,
    pub role: String,
    pub prompt_file: String,
    pub timeout_sec: u64,
}

/// A directive, field by field.
pub struct DirectiveSpec {
    pub name: Seq<char>,
    pub role: Seq<char>,
    pub prompt_file: Seq<char>,
    pub timeout_sec: int,
}

/// The view of a directive.
pub open spec fn directive_view(d: DispatchDirectiveConfig) -> DirectiveSpec {
    DirectiveSpec {
        name: d.name@,
        role: d.role@,
        prompt_file: d.prompt_file@,
        timeout_sec: d.timeout_sec as int,
    }
}

/// The views of directives.
pub open spec fn directive_views(v: Seq<DispatchDirectiveConfig>) -> Seq<DirectiveSpec> {
    v.map_values(|d: DispatchDirectiveConfig| directive_view(d))
}

/// The names of directives.
pub open spec fn directive_names(v: Seq<DirectiveSpec>) -> Seq<Seq<char>> {
    v.map_values(|d: DirectiveSpec| d.name)
}

/// The larger of two numbers.
pub open spec fn at_least(n: int, least: int) -> int {
    if n < least {
        least
    } else {
        n
    }
}

/// A directive of the file with its paths resolved; it gets at least half a minute.
pub open spec fn directive_read(
    f: DispatchDirectiveConfig,
    base: Seq<char>,
    home: Option<Seq<char>>,
) -> Result<DirectiveSpec, Seq<char>> {
    match resolved(base, f.prompt_file@, home) {
        Err(e) => Err(e),
        Ok(prompt_file) => Ok(
            DirectiveSpec {
                name: lower(f.name@),
                role: lower(f.role@),
                prompt_file,
                timeout_sec: at_least(f.timeout_sec as int, 30),
            },
        ),
    }
}

/// The directives with one more; it takes the place of an earlier one of its name.
pub open spec fn put_directive(v: Seq<DirectiveSpec>, d: DirectiveSpec) -> Seq<DirectiveSpec> {
    if has_key(directive_names(v), d.name) {
        v.update(first_at(directive_names(v), d.name), d)
    } else {
        v.push(d)
    }
}

/// The directives read so far with those of `rest`, or what is wrong with the first bad one.
pub open spec fn directives_read(
    done: Seq<DirectiveSpec>,
    rest: Seq<DispatchDirectiveConfig>,
    base: Seq<char>,
    home: Option<Seq<char>>,
) -> Result<Seq<DirectiveSpec>, Seq<char>>
    decreases rest.len(),
{
    if rest.len() == 0 {
        Ok(done)
    } else {
        match directive_read(rest[0], base, home) {
            Err(e) => Err(e),
            Ok(d) => directives_read(put_directive(done, d), rest.drop_first(), base, home),
        }
    }
}

/// The index of the directive of the name.
pub fn find_directive(v: &Vec<DispatchDirectiveConfig>, name: &str) -> (r: Option<usize>)
    ensures
        r is Some <==> has_key(directive_names(directive_views(v@)), name@),
        r matches Some(i) ==> i < v@.len() && i == first_at(
            directive_names(directive_views(v@)),
            name@,
        ) && v@[i as int].name@ == name@,
{
    let ghost keys = directive_names(directive_views(v@));
    let mut i: usize = 0;
    while i < v.len()
        invariant
            i <= v@.len(),
            keys == directive_names(directive_views(v@)),
            forall|k: int| 0 <= k < i ==> #[trigger] keys[k] != name@,
        decreases v.len() - i,
    {
        proof {
            assert(keys[i as int] == v@[i as int].name@);
        }
        if str_eq(v[i].name.as_str(), name) {
            proof {
                lemma_first_at_is(keys, name@, i as int);
            }
            return Some(i);
        }
        i = i + 1;
    }
    proof {
        lemma_first_at_is(keys, name@, i as int);
    }
    None
}

/// Reads the directives of a config.
pub fn read_directives(
    files: &Vec<DispatchDirectiveConfig>,
    base: &str,
    home: &Option<String>,
) -> (r: Result<Vec<DispatchDirectiveConfig>, String>)
    ensures
        match directives_read(Seq::empty(), files@, base@, opt_view(*home)) {
            Ok(s) => r matches Ok(v) && directive_views(v@) == s,
            Err(m) => r matches Err(e) && e@ == m,
        },
{
    let mut out: Vec<DispatchDirectiveConfig> = Vec::new();
    let ghost goal = directives_read(Seq::empty(), files@, base@, opt_view(*home));
    let mut i: usize = 0;
    proof {
        assert(files@.skip(0) =~= files@);
        assert(directive_views(out@) =~= Seq::<DirectiveSpec>::empty());
    }
    while i < files.len()
        invariant
            i <= files@.len(),
            goal == directives_read(Seq::empty(), files@, base@, opt_view(*home)),
            directives_read(
                directive_views(out@),
                files@.skip(i as int),
                base@,
                opt_view(*home),
            ) == goal,
        decreases files.len() - i,
    {
        let ghost before = directive_views(out@);
        proof {
            assert(files@.skip(i as int)[0] == files@[i as int]);
            assert(files@.skip(i as int).drop_first() =~= files@.skip(i + 1));
        }
        let f = &files[i];
        let prompt_file = match resolve_config_path(base, f.prompt_file.as_str(), home) {
            Ok(p) => p,
            Err(e) => {
                return Err(e);
            },
        };
        let name = str_lower(f.name.as_str());
        let at = find_directive(&out, name.as_str());
        let d = DispatchDirectiveConfig {
            name,
            role: str_lower(f.role.as_str()),
            prompt_file,
            timeout_sec: if f.timeout_sec < 30 { 30 } else { f.timeout_sec },
        };
        let ghost added = directive_view(d);
        match at {
            Some(k) => {
                out.set(k, d);
            },
            None => {
                out.push(d);
            },
        }
        proof {
            assert(directive_views(out@) =~= put_directive(before, added));
        }
        i = i + 1;
    }
    Ok(out)
}


/// A local checkout that stands for a repository.
pub struct DispatchRepoBindingConfig {
    pub repo: String,
    pub local_path: String,
    pub git_remote: String,
    pub git_base: String,
}

/// A binding, field by field.
pub struct BindingSpec {
    pub repo: Seq<char>,
    pub local_path: Seq<char>,
    pub git_remote: Seq<char>,
    pub git_base: Seq<char>,
}

/// The view of a binding.
pub open spec fn binding_view(b: DispatchRepoBindingConfig) -> BindingSpec {
    BindingSpec {
        repo: b.repo@,
        local_path: b.local_path@,
        git_remote: b.git_remote@,
        git_base: b.git_base@,
    }
}

/// The views of bindings.
pub open spec fn binding_views(v: Seq<DispatchRepoBindingConfig>) -> Seq<BindingSpec> {
    v.map_values(|b: DispatchRepoBindingConfig| binding_view(b))
}

/// The repositories of bindings.
pub open spec fn binding_repos(v: Seq<BindingSpec>) -> Seq<Seq<char>> {
    v.map_values(|b: BindingSpec| b.repo)
}

/// A binding of the file, given those before it, or what is wrong with it.
pub open spec fn binding_read(
    path: Seq<char>,
    done: Seq<BindingSpec>,
    f: DispatchRepoBindingConfig,
    base: Seq<char>,
    home: Option<Seq<char>>,
) -> Result<BindingSpec, Seq<char>> {
    match repo_parts(f.repo@) {
        None => Err("invalid repo binding repo '"@ + f.repo@ + "'"@),
        Some(p) => {
            let repo = repo_text(p.0, p.1);
            if has_key(binding_repos(done), repo) {
                Err("duplicate repo binding for "@ + repo + " in "@ + path)
            } else if trim(f.git_remote@).len() == 0 {
                Err("repo binding for "@ + repo + " has empty git_remote in "@ + path)
            } else if trim(f.git_base@).len() == 0 {
                Err("repo binding for "@ + repo + " has empty git_base in "@ + path)
            } else {
                match resolved(base, f.local_path@, home) {
                    Err(e) => Err(e),
                    Ok(local_path) => Ok(
                        BindingSpec {
                            repo,
                            local_path,
                            git_remote: trim(f.git_remote@),
                            git_base: trim(f.git_base@),
                        },
                    ),
                }
            }
        },
    }
}

/// The bindings read so far with those of `rest`, or what is wrong with the first bad one.
pub open spec fn bindings_read(
    path: Seq<char>,
    done: Seq<BindingSpec>,
    rest: Seq<DispatchRepoBindingConfig>,
    base: Seq<char>,
    home: Option<Seq<char>>,
) -> Result<Seq<BindingSpec>, Seq<char>>
    decreases rest.len(),
{
    if rest.len() == 0 {
        Ok(done)
    } else {
        match binding_read(path, done, rest[0], base, home) {
            Err(e) => Err(e),
            Ok(b) => bindings_read(path, done.push(b), rest.drop_first(), base, home),
        }
    }
}

/// The index of the binding of the repository.
pub fn find_binding(v: &Vec<DispatchRepoBindingConfig>, repo: &str) -> (r: Option<usize>)
    ensures
        r is Some <==> has_key(binding_repos(binding_views(v@)), repo@),
        r matches Some(i) ==> i < v@.len() && i == first_at(
            binding_repos(binding_views(v@)),
            repo@,
        ) && v@[i as int].repo@ == repo@,
{
    let ghost keys = binding_repos(binding_views(v@));
    let mut i: usize = 0;
    while i < v.len()
        invariant
            i <= v@.len(),
            keys == binding_repos(binding_views(v@)),
            forall|k: int| 0 <= k < i ==> #[trigger] keys[k] != repo@,
        decreases v.len() - i,
    {
        proof {
            assert(keys[i as int] == v@[i as int].repo@);
        }
        if str_eq(v[i].repo.as_str(), repo) {
            proof {
                lemma_first_at_is(keys, repo@, i as int);
            }
            return Some(i);
        }
        i = i + 1;
    }
    proof {
        lemma_first_at_is(keys, repo@, i as int);
    }
    None
}

/// Reads one binding of a config.
fn read_binding(
    config_path: &str,
    done: &Vec<DispatchRepoBindingConfig>,
    f: &DispatchRepoBindingConfig,
    base: &str,
    home: &Option<String>,
) -> (r: Result<DispatchRepoBindingConfig, String>)
    ensures
        match binding_read(config_path@, binding_views(done@), *f, base@, opt_view(*home)) {
            Ok(s) => r matches Ok(b) && binding_view(b) == s,
            Err(m) => r matches Err(e) && e@ == m,
        },
{
    let repo = match RepoRef::parse(f.repo.as_str()) {
        Ok(repo) => repo.text(),
        Err(_) => {
            return Err(cat3("invalid repo binding repo '", f.repo.as_str(), "'"));
        },
    };
    if find_binding(done, repo.as_str()).is_some() {
        return Err(cat4("duplicate repo binding for ", repo.as_str(), " in ", config_path));
    }
    let git_remote = str_trim(f.git_remote.as_str());
    if git_remote.is_empty() {
        return Err(
            cat4("repo binding for ", repo.as_str(), " has empty git_remote in ", config_path),
        );
    }
    let git_base = str_trim(f.git_base.as_str());
    if git_base.is_empty() {
        return Err(
            cat4("repo binding for ", repo.as_str(), " has empty git_base in ", config_path),
        );
    }
    match resolve_config_path(base, f.local_path.as_str(), home) {
        Err(e) => Err(e),
        Ok(local_path) => Ok(
            DispatchRepoBindingConfig {
                repo,
                local_path,
                git_remote: git_remote.to_owned(),
                git_base: git_base.to_owned(),
            },
        ),
    }
}

/// Reads the bindings of a config; no repository may have two.
pub fn read_bindings(
    config_path: &str,
    files: &Vec<DispatchRepoBindingConfig>,
    base: &str,
    home: &Option<String>,
) -> (r: Result<Vec<DispatchRepoBindingConfig>, String>)
    ensures
        match bindings_read(config_path@, Seq::empty(), files@, base@, opt_view(*home)) {
            Ok(s) => r matches Ok(v) && binding_views(v@) == s,
            Err(m) => r matches Err(e) && e@ == m,
        },
{
    let mut out: Vec<DispatchRepoBindingConfig> = Vec::new();
    let ghost goal = bindings_read(config_path@, Seq::empty(), files@, base@, opt_view(*home));
    let mut i: usize = 0;
    proof {
        assert(files@.skip(0) =~= files@);
        assert(binding_views(out@) =~= Seq::<BindingSpec>::empty());
    }
    while i < files.len()
        invariant
            i <= files@.len(),
            goal == bindings_read(config_path@, Seq::empty(), files@, base@, opt_view(*home)),
            bindings_read(
                config_path@,
                binding_views(out@),
                files@.skip(i as int),
                base@,
                opt_view(*home),
            ) == goal,
        decreases files.len() - i,
    {
        let ghost before = binding_views(out@);
        proof {
            assert(files@.skip(i as int)[0] == files@[i as int]);
            assert(files@.skip(i as int).drop_first() =~= files@.skip(i + 1));
        }
        match read_binding(config_path, &out, &files[i], base, home) {
            Ok(b) => {
                let ghost added = binding_view(b);
                out.push(b);
                proof {
                    assert(binding_views(out@) =~= before.push(added));
                }
            },
            Err(e) => {
                return Err(e);
            },
        }
        i = i + 1;
    }
    Ok(out)
}

/// No repository is bound twice: what one read adds, an earlier one did not have.
pub proof fn law_bindings_are_unique(
    path: Seq<char>,
    done: Seq<BindingSpec>,
    rest: Seq<DispatchRepoBindingConfig>,
    base: Seq<char>,
    home: Option<Seq<char>>,
)
    requires
        bindings_read(path, done, rest, base, home) is Ok,
        binding_repos(done).no_duplicates(),
    ensures
        binding_repos(bindings_read(path, done, rest, base, home)->Ok_0).no_duplicates(),
    decreases rest.len(),
{
    if rest.len() > 0 {
        let b = binding_read(path, done, rest[0], base, home)->Ok_0;
        lemma_first_at(binding_repos(done), b.repo);
        assert(binding_repos(done.push(b)) =~= binding_repos(done).push(b.repo));
        law_bindings_are_unique(path, done.push(b), rest.drop_first(), base, home);
    }
}

/// When the operator is notified.
#[derive(Clone, Copy, PartialEq, Eq, Structural)]
pub enum DispatchNotificationPhase {
    Started,
    Completed,
    Failed,
    Blocked,
}

/// The phases in their order.
pub open spec fn phase_order() -> Seq<DispatchNotificationPhase> {
    seq![
        DispatchNotificationPhase::Started,
        DispatchNotificationPhase::Completed,
        DispatchNotificationPhase::Failed,
        DispatchNotificationPhase::Blocked,
    ]
}

/// The given phases in their order, each once.
pub open spec fn phases_in_order(raw: Seq<DispatchNotificationPhase>) -> Seq<
    DispatchNotificationPhase,
> {
    phase_order().filter(|p: DispatchNotificationPhase| raw.contains(p))
}

/// Tells whether the phase is among those given.
fn has_phase(raw: &Vec<DispatchNotificationPhase>, p: DispatchNotificationPhase) -> (r: bool)
    ensures
        r == raw@.contains(p),
{
    let mut i: usize = 0;
    while i < raw.len()
        invariant
            i <= raw@.len(),
            forall|k: int| 0 <= k < i ==> raw@[k] != p,
        decreases raw.len() - i,
    {
        if raw[i] == p {
            return true;
        }
        i = i + 1;
    }
    false
}

/// The given phases in their order, each once.
pub fn ordered_phases(raw: &Vec<DispatchNotificationPhase>) -> (r: Vec<DispatchNotificationPhase>)
    ensures
        r@ == phases_in_order(raw@),
{
    let mut out: Vec<DispatchNotificationPhase> = Vec::new();
    if has_phase(raw, DispatchNotificationPhase::Started) {
        out.push(DispatchNotificationPhase::Started);
    }
    if has_phase(raw, DispatchNotificationPhase::Completed) {
        out.push(DispatchNotificationPhase::Completed);
    }
    if has_phase(raw, DispatchNotificationPhase::Failed) {
        out.push(DispatchNotificationPhase::Failed);
    }
    if has_phase(raw, DispatchNotificationPhase::Blocked) {
        out.push(DispatchNotificationPhase::Blocked);
    }
    proof {
        let o = phase_order();
        let keep = |p: DispatchNotificationPhase| raw@.contains(p);
        let o3 = o.drop_last();
        let o2 = o3.drop_last();
        let o1 = o2.drop_last();
        assert(o.last() == DispatchNotificationPhase::Blocked);
        assert(o3.last() == DispatchNotificationPhase::Failed);
        assert(o2.last() == DispatchNotificationPhase::Completed);
        assert(o1.last() == DispatchNotificationPhase::Started);
        assert(o1.drop_last() =~= Seq::<DispatchNotificationPhase>::empty());
        reveal(Seq::filter);
        assert(o1.drop_last().filter(keep) =~= Seq::<DispatchNotificationPhase>::empty());
        let f0 = o1.drop_last().filter(keep);
        let f1 = o1.filter(keep);
        let f2 = o2.filter(keep);
        let f3 = o3.filter(keep);
        assert(f1 == (if keep(o1.last()) { f0.push(o1.last()) } else { f0 }));
        assert(f2 == (if keep(o2.last()) { f1.push(o2.last()) } else { f1 }));
        assert(f3 == (if keep(o3.last()) { f2.push(o3.last()) } else { f2 }));
        assert(o.filter(keep) == (if keep(o.last()) { f3.push(o.last()) } else { f3 }));
        assert(out@ =~= o.filter(keep));
    }
    out
}


/// Notifications as the file writes them and as they compile.
pub struct DispatchNotificationsConfig {
    pub enabled: bool,
    pub poll_sec: u64,
    pub phases: Vec<DispatchNotificationPhase>,
    pub app_name: String,
    pub watch_login: String,
    pub notify_send_bin: String,
}

/// Limits on what triggers may dispatch.
#[derive(Clone, Copy, PartialEq, Eq, Structural)]
pub struct DispatchTriggerGuardrailsConfig {
    pub max_depth_per_issue: u32,
    pub max_dispatches_per_window: u32,
    pub window_sec: u64,
    pub cooldown_sec: u64,
    pub deny_immediate_self_loop: bool,
}

/// A dispatch config as the file writes it.
pub struct DispatchConfigFile {
    pub version: u32,
    pub allowed_actors: Vec<String>,
    pub prompt_envelopes: DispatchPromptEnvelopeConfig,
    pub notifications: DispatchNotificationsConfig,
    pub rank_acl: RankAclFile,
    pub roles: Vec<RoleFile>,
    pub control_plane_token_file: Option<String>,
    pub directives: Vec<DispatchDirectiveConfig>,
    pub repo_bindings: Vec<DispatchRepoBindingConfig>,
    pub legacy_triggers: bool,
    pub trigger_guardrails: DispatchTriggerGuardrailsConfig,
    pub triggers: Vec<TriggerFile>,
    pub forgejoctl_bin: String,
}

/// A dispatch config.
pub struct DispatchConfig {
    pub allowed_actors: Vec<String>,
    pub prompt_envelopes: DispatchPromptEnvelopeConfig,
    pub notifications: DispatchNotificationsConfig,
    pub rank_acl: DispatchRankAclConfig,
    pub roles: Vec<DispatchRoleConfig>,
    pub control_plane_token_file: Option<String>,
    pub directives: Vec<DispatchDirectiveConfig>,
    pub repo_bindings: Vec<DispatchRepoBindingConfig>,
    pub triggers: Vec<DispatchTriggerConfig>,
    pub trigger_guardrails: DispatchTriggerGuardrailsConfig,
    pub forgejoctl_bin: String,
}

/// The six prompt files in their order.
pub open spec fn envelope_files(e: DispatchPromptEnvelopeConfig) -> Seq<Seq<char>> {
    seq![
        e.preamble_file@,
        e.fresh_envelope@,
        e.followup_envelope@,
        e.turn_context_file@,
        e.issue_fresh_file@,
        e.issue_followup_file@,
    ]
}

/// Some paths of a config resolved, or what is wrong with the first bad one.
pub open spec fn paths_resolved(raw: Seq<Seq<char>>, base: Seq<char>, home: Option<Seq<char>>) -> Result<
    Seq<Seq<char>>,
    Seq<char>,
>
    decreases raw.len(),
{
    if raw.len() == 0 {
        Ok(Seq::empty())
    } else {
        match paths_resolved(raw.drop_last(), base, home) {
            Err(e) => Err(e),
            Ok(done) => match resolved(base, raw.last(), home) {
                Err(e) => Err(e),
                Ok(p) => Ok(done.push(p)),
            },
        }
    }
}

/// Resolves some paths of a config.
fn resolve_paths(raw: &Vec<String>, base: &str, home: &Option<String>) -> (r: Result<
    Vec<String>,
    String,
>)
    ensures
        match paths_resolved(views(raw@), base@, opt_view(*home)) {
            Ok(s) => r matches Ok(v) && views(v@) == s,
            Err(m) => r matches Err(e) && e@ == m,
        },
{
    let ghost all = views(raw@);
    let ghost h = opt_view(*home);
    let mut out: Vec<String> = Vec::new();
    let mut i: usize = 0;
    proof {
        assert(all.take(0) =~= Seq::<Seq<char>>::empty());
        assert(views(out@) =~= Seq::<Seq<char>>::empty());
    }
    while i < raw.len()
        invariant
            i <= raw@.len(),
            all == views(raw@),
            h == opt_view(*home),
            paths_resolved(all.take(i as int), base@, h) == Ok::<Seq<Seq<char>>, Seq<char>>(
                views(out@),
            ),
        decreases raw.len() - i,
    {
        let ghost before = views(out@);
        proof {
            assert(all.take(i + 1).drop_last() =~= all.take(i as int));
            assert(all.take(i + 1).last() == raw@[i as int]@);
        }
        match resolve_config_path(base, raw[i].as_str(), home) {
            Ok(p) => {
                let ghost added = p@;
                out.push(p);
                proof {
                    assert(views(out@) =~= before.push(added));
                }
            },
            Err(e) => {
                proof {
                    lemma_paths_fail(all, base@, h, i + 1);
                }
                return Err(e);
            },
        }
        i = i + 1;
    }
    proof {
        assert(all.take(all.len() as int) =~= all);
    }
    Ok(out)
}

/// Once a path has failed, further paths do not mend it.
proof fn lemma_paths_fail(raw: Seq<Seq<char>>, base: Seq<char>, home: Option<Seq<char>>, i: int)
    requires
        0 <= i <= raw.len(),
        paths_resolved(raw.take(i), base, home) is Err,
    ensures
        paths_resolved(raw, base, home) == paths_resolved(raw.take(i), base, home),
    decreases raw.len(),
{
    if i == raw.len() {
        assert(raw.take(i) =~= raw);
    } else {
        assert(raw.drop_last().take(i) =~= raw.take(i));
        lemma_paths_fail(raw.drop_last(), base, home, i);
    }
}

/// Resolves the prompt files of a config.
fn resolve_envelopes(e: &DispatchPromptEnvelopeConfig, base: &str, home: &Option<String>) -> (r:
    Result<DispatchPromptEnvelopeConfig, String>)
    ensures
        match paths_resolved(envelope_files(*e), base@, opt_view(*home)) {
            Ok(s) => r matches Ok(x) && envelope_files(x) == s,
            Err(m) => r matches Err(x) && x@ == m,
        },
{
    let mut raw: Vec<String> = Vec::new();
    raw.push(e.preamble_file.clone());
    raw.push(e.fresh_envelope.clone());
    raw.push(e.followup_envelope.clone());
    raw.push(e.turn_context_file.clone());
    raw.push(e.issue_fresh_file.clone());
    raw.push(e.issue_followup_file.clone());
    proof {
        assert(views(raw@) =~= envelope_files(*e));
    }
    match resolve_paths(&raw, base, home) {
        Err(x) => Err(x),
        Ok(v) => {
            proof {
                lemma_paths_len(envelope_files(*e), base@, opt_view(*home));
                assert(v@.len() == views(v@).len());
            }
            let x = DispatchPromptEnvelopeConfig {
                preamble_file: v[0].clone(),
                fresh_envelope: v[1].clone(),
                followup_envelope: v[2].clone(),
                turn_context_file: v[3].clone(),
                issue_fresh_file: v[4].clone(),
                issue_followup_file: v[5].clone(),
            };
            proof {
                assert(envelope_files(x) =~= views(v@));
            }
            Ok(x)
        },
    }
}

/// As many paths come out as went in.
proof fn lemma_paths_len(raw: Seq<Seq<char>>, base: Seq<char>, home: Option<Seq<char>>)
    ensures
        paths_resolved(raw, base, home) matches Ok(s) ==> s.len() == raw.len(),
    decreases raw.len(),
{
    if raw.len() > 0 {
        lemma_paths_len(raw.drop_last(), base, home);
    }
}

/// The allowed actors, trimmed and in lower case, without empty ones.
pub open spec fn actors_read(raw: Seq<Seq<char>>) -> Seq<Seq<char>> {
    raw.map_values(|a: Seq<char>| norm(a)).filter(|a: Seq<char>| a.len() > 0)
}

/// Reads the allowed actors.
pub fn read_actors(raw: &Vec<String>) -> (r: Vec<String>)
    ensures
        views(r@) == actors_read(views(raw@)),
{
    let ghost all = views(raw@).map_values(|a: Seq<char>| norm(a));
    let ghost keep = |a: Seq<char>| a.len() > 0;
    let mut out: Vec<String> = Vec::new();
    let mut i: usize = 0;
    proof {
        reveal(Seq::filter);
        assert(views(out@) =~= all.take(0).filter(keep));
    }
    while i < raw.len()
        invariant
            i <= raw@.len(),
            all == views(raw@).map_values(|a: Seq<char>| norm(a)),
            keep == (|a: Seq<char>| a.len() > 0),
            views(out@) == all.take(i as int).filter(keep),
        decreases raw.len() - i,
    {
        let ghost before = views(out@);
        let a = str_norm(raw[i].as_str());
        let ghost an = a@;
        proof {
            assert(all.take(i + 1).drop_last() =~= all.take(i as int));
            assert(all.take(i + 1).last() == an);
            reveal(Seq::filter);
        }
        if !a.as_str().is_empty() {
            out.push(a);
            proof {
                assert(views(out@) =~= before.push(an));
            }
        }
        i = i + 1;
    }
    proof {
        assert(all.take(all.len() as int) =~= all);
    }
    out
}

/// The message for the first role in ascending order whose card is bad.
pub open spec fn cards_fault(
    path: Seq<char>,
    preamble: Seq<char>,
    roles: Seq<Seq<char>>,
    cards: Seq<RoleCard>,
) -> Option<Seq<char>>
    decreases roles.len(),
{
    if roles.len() == 0 {
        None
    } else {
        match card_verdict(path, preamble, roles[0], card_of(cards, roles[0])) {
            Err(e) => Some(e),
            Ok(_) => cards_fault(path, preamble, roles.drop_first(), cards),
        }
    }
}

/// Checks the cards of the roles in ascending order.
fn check_cards(
    config_path: &str,
    envelopes: &DispatchPromptEnvelopeConfig,
    roles: &Vec<DispatchRoleConfig>,
    cards: &Vec<RoleCard>,
) -> (r: Option<String>)
    ensures
        opt_view(r) == cards_fault(
            config_path@,
            envelopes.preamble_file@,
            in_order(role_names(role_views(roles@)).to_set()),
            cards@,
        ),
{
    let names = name_set(roles);
    let ghost order = names.listed();
    let ghost goal = cards_fault(config_path@, envelopes.preamble_file@, order, cards@);
    let mut i: usize = 0;
    proof {
        names.lemma_listed();
        assert(order.skip(0) =~= order);
    }
    while i < names.items.len()
        invariant
            i <= names.items@.len(),
            order == names.listed(),
            goal == cards_fault(config_path@, envelopes.preamble_file@, order, cards@),
            order == in_order(role_names(role_views(roles@)).to_set()),
            cards_fault(config_path@, envelopes.preamble_file@, order.skip(i as int), cards@)
                == goal,
        decreases names.items.len() - i,
    {
        proof {
            assert(order.skip(i as int)[0] == names.items@[i as int]@);
            assert(order.skip(i as int).drop_first() =~= order.skip(i + 1));
        }
        match read_role_card_rank(config_path, envelopes, names.items[i].as_str(), cards) {
            Ok(_) => {},
            Err(e) => {
                return Some(e);
            },
        }
        i = i + 1;
    }
    None
}

/// The names of the roles as a set.
pub fn name_set(roles: &Vec<DispatchRoleConfig>) -> (r: NameSet)
    ensures
        r.wf(),
        r.names() == role_names(role_views(roles@)).to_set(),
{
    let ghost keys = role_names(role_views(roles@));
    let mut out = NameSet::new();
    let mut i: usize = 0;
    proof {
        assert(keys.take(0).to_set() =~= Set::<Seq<char>>::empty());
    }
    while i < roles.len()
        invariant
            i <= roles@.len(),
            keys == role_names(role_views(roles@)),
            out.wf(),
            out.names() == keys.take(i as int).to_set(),
        decreases roles.len() - i,
    {
        out.add(roles[i].name.clone());
        proof {
            let a = keys.take(i as int);
            let b = keys.take(i + 1);
            assert(b =~= a.push(keys[i as int]));
            assert(keys[i as int] == roles@[i as int].name@);
            assert forall|x: Seq<char>|
                #[trigger] b.to_set().contains(x) <==>
                    a.to_set().insert(keys[i as int]).contains(x) by {
                if b.to_set().contains(x) {
                    let k = choose|k: int| 0 <= k < b.len() && b[k] == x;
                    if k < i {
                        assert(a[k] == x);
                    }
                }
                if a.to_set().contains(x) {
                    let k = choose|k: int| 0 <= k < a.len() && a[k] == x;
                    assert(b[k] == x);
                }
                assert(b[i as int] == keys[i as int]);
            }
            assert(b.to_set() =~= a.to_set().insert(keys[i as int]));
        }
        i = i + 1;
    }
    proof {
        assert(keys.take(keys.len() as int) =~= keys);
    }
    out
}


/// The triggers compiled so far with those of `rest`, or what is wrong with the first bad one.
pub open spec fn triggers_read(
    path: Seq<char>,
    done: Seq<TriggerSpec>,
    rest: Seq<TriggerFile>,
    directives: Seq<Seq<char>>,
    roles: Seq<Seq<char>>,
) -> Result<Seq<TriggerSpec>, Seq<char>>
    decreases rest.len(),
{
    if rest.len() == 0 {
        Ok(done)
    } else {
        match trigger_compiled(path, rest[0], directives, roles) {
            Err(e) => Err(e),
            Ok(t) => triggers_read(path, done.push(t), rest.drop_first(), directives, roles),
        }
    }
}

/// The message for the first trigger whose id an earlier one has.
pub open spec fn trigger_ids_fault(path: Seq<char>, seen: Seq<Seq<char>>, rest: Seq<TriggerSpec>) -> Option<
    Seq<char>,
>
    decreases rest.len(),
{
    if rest.len() == 0 {
        None
    } else if seen.contains(rest[0].id) {
        Some("dispatch config "@ + path + " has duplicate trigger id '"@ + rest[0].id + "'"@)
    } else {
        trigger_ids_fault(path, seen.push(rest[0].id), rest.drop_first())
    }
}

/// The names that a list of directives has.
fn directive_name_list(v: &Vec<DispatchDirectiveConfig>) -> (r: Vec<String>)
    ensures
        views(r@) == directive_names(directive_views(v@)),
{
    let mut out: Vec<String> = Vec::new();
    let mut i: usize = 0;
    while i < v.len()
        invariant
            i <= v@.len(),
            out@.len() == i,
            forall|k: int| 0 <= k < i ==> (#[trigger] out@[k])@ == v@[k].name@,
        decreases v.len() - i,
    {
        out.push(v[i].name.clone());
        i = i + 1;
    }
    proof {
        assert(views(out@) =~= directive_names(directive_views(v@)));
    }
    out
}

/// The names that a list of roles has.
pub fn role_name_list(v: &Vec<DispatchRoleConfig>) -> (r: Vec<String>)
    ensures
        views(r@) == role_names(role_views(v@)),
{
    let mut out: Vec<String> = Vec::new();
    let mut i: usize = 0;
    while i < v.len()
        invariant
            i <= v@.len(),
            out@.len() == i,
            forall|k: int| 0 <= k < i ==> (#[trigger] out@[k])@ == v@[k].name@,
        decreases v.len() - i,
    {
        out.push(v[i].name.clone());
        i = i + 1;
    }
    proof {
        assert(views(out@) =~= role_names(role_views(v@)));
    }
    out
}

/// The triggers that the config begins with.
pub open spec fn first_triggers(legacy: bool) -> Seq<TriggerSpec> {
    if legacy {
        legacy_triggers()
    } else {
        Seq::empty()
    }
}

/// Compiles the triggers of a config behind the built-in ones.
fn read_triggers(
    config_path: &str,
    legacy: bool,
    files: &Vec<TriggerFile>,
    directives: &Vec<String>,
    roles: &Vec<String>,
) -> (r: Result<Vec<DispatchTriggerConfig>, String>)
    ensures
        match triggers_read(
            config_path@,
            first_triggers(legacy),
            files@,
            views(directives@),
            views(roles@),
        ) {
            Ok(s) => r matches Ok(v) && trigger_views(v@) == s,
            Err(m) => r matches Err(e) && e@ == m,
        },
{
    let mut out: Vec<DispatchTriggerConfig> = if legacy {
        legacy_trigger_pack()
    } else {
        Vec::new()
    };
    let ghost ds = views(directives@);
    let ghost rs = views(roles@);
    let ghost goal = triggers_read(config_path@, first_triggers(legacy), files@, ds, rs);
    let mut i: usize = 0;
    proof {
        assert(files@.skip(0) =~= files@);
        assert(trigger_views(out@) =~= first_triggers(legacy));
    }
    while i < files.len()
        invariant
            i <= files@.len(),
            ds == views(directives@),
            rs == views(roles@),
            goal == triggers_read(config_path@, first_triggers(legacy), files@, ds, rs),
            triggers_read(config_path@, trigger_views(out@), files@.skip(i as int), ds, rs) == goal,
        decreases files.len() - i,
    {
        let ghost before = trigger_views(out@);
        proof {
            assert(files@.skip(i as int)[0] == files@[i as int]);
            assert(files@.skip(i as int).drop_first() =~= files@.skip(i + 1));
        }
        match compile_registered_trigger(config_path, &files[i], directives, roles) {
            Ok(t) => {
                let ghost added = trigger_view(t);
                out.push(t);
                proof {
                    assert(trigger_views(out@) =~= before.push(added));
                }
            },
            Err(e) => {
                return Err(e);
            },
        }
        i = i + 1;
    }
    Ok(out)
}

/// Finds a trigger whose id an earlier one has.
fn check_trigger_ids(config_path: &str, triggers: &Vec<DispatchTriggerConfig>) -> (r: Option<String>)
    ensures
        opt_view(r) == trigger_ids_fault(config_path@, Seq::empty(), trigger_views(triggers@)),
{
    let ghost all = trigger_views(triggers@);
    let ghost goal = trigger_ids_fault(config_path@, Seq::empty(), all);
    let mut seen: Vec<String> = Vec::new();
    let mut i: usize = 0;
    proof {
        assert(all.skip(0) =~= all);
        assert(views(seen@) =~= Seq::<Seq<char>>::empty());
    }
    while i < triggers.len()
        invariant
            i <= triggers@.len(),
            all == trigger_views(triggers@),
            goal == trigger_ids_fault(config_path@, Seq::empty(), all),
            trigger_ids_fault(config_path@, views(seen@), all.skip(i as int)) == goal,
        decreases triggers.len() - i,
    {
        let ghost before = views(seen@);
        let id = triggers[i].id.clone();
        let ghost text = id@;
        proof {
            assert(all.skip(i as int)[0].id == text);
            assert(all.skip(i as int).drop_first() =~= all.skip(i + 1));
        }
        if crate::triggers::listed(&seen, id.as_str()) {
            return Some(
                cat5("dispatch config ", config_path, " has duplicate trigger id '", id.as_str(), "'"),
            );
        }
        seen.push(id);
        proof {
            assert(views(seen@) =~= before.push(text));
        }
        i = i + 1;
    }
    None
}

/// What a config compiles to, part by part.
pub struct ConfigSpec {
    pub allowed_actors: Seq<Seq<char>>,
    pub envelopes: Seq<Seq<char>>,
    pub notifications: NotificationsSpec,
    pub acl: CompiledAcl,
    pub roles: Seq<RoleSpec>,
    pub control_token: Option<Seq<char>>,
    pub directives: Seq<DirectiveSpec>,
    pub bindings: Seq<BindingSpec>,
    pub triggers: Seq<TriggerSpec>,
    pub guardrails: GuardrailsSpec,
    pub forgejoctl_bin: Seq<char>,
}

/// Notifications, field by field.
pub struct NotificationsSpec {
    pub enabled: bool,
    pub poll_sec: int,
    pub phases: Seq<DispatchNotificationPhase>,
    pub app_name: Seq<char>,
    pub watch_login: Seq<char>,
    pub notify_send_bin: Seq<char>,
}

/// Guardrails, field by field.
pub struct GuardrailsSpec {
    pub max_depth_per_issue: int,
    pub max_dispatches_per_window: int,
    pub window_sec: int,
    pub cooldown_sec: int,
    pub deny_immediate_self_loop: bool,
}

/// The view of notifications.
pub open spec fn notifications_view(n: DispatchNotificationsConfig) -> NotificationsSpec {
    NotificationsSpec {
        enabled: n.enabled,
        poll_sec: n.poll_sec as int,
        phases: n.phases@,
        app_name: n.app_name@,
        watch_login: n.watch_login@,
        notify_send_bin: n.notify_send_bin@,
    }
}

/// The view of guardrails.
pub open spec fn guardrails_view(g: DispatchTriggerGuardrailsConfig) -> GuardrailsSpec {
    GuardrailsSpec {
        max_depth_per_issue: g.max_depth_per_issue as int,
        max_dispatches_per_window: g.max_dispatches_per_window as int,
        window_sec: g.window_sec as int,
        cooldown_sec: g.cooldown_sec as int,
        deny_immediate_self_loop: g.deny_immediate_self_loop,
    }
}

/// The guardrails of a file with their least values.
pub open spec fn guardrails_read(g: DispatchTriggerGuardrailsConfig) -> GuardrailsSpec {
    GuardrailsSpec {
        max_depth_per_issue: at_least(g.max_depth_per_issue as int, 1),
        max_dispatches_per_window: at_least(g.max_dispatches_per_window as int, 1),
        window_sec: at_least(g.window_sec as int, 1),
        cooldown_sec: g.cooldown_sec as int,
        deny_immediate_self_loop: g.deny_immediate_self_loop,
    }
}

/// The guardrails of a file with their least values.
pub fn read_guardrails(g: &DispatchTriggerGuardrailsConfig) -> (r: DispatchTriggerGuardrailsConfig)
    ensures
        guardrails_view(r) == guardrails_read(*g),
{
    DispatchTriggerGuardrailsConfig {
        max_depth_per_issue: if g.max_depth_per_issue < 1 { 1 } else { g.max_depth_per_issue },
        max_dispatches_per_window: if g.max_dispatches_per_window < 1 {
            1
        } else {
            g.max_dispatches_per_window
        },
        window_sec: if g.window_sec < 1 { 1 } else { g.window_sec },
        cooldown_sec: g.cooldown_sec,
        deny_immediate_self_loop: g.deny_immediate_self_loop,
    }
}

/// The parts of a config that name actors, roles, directives and files.
pub struct ConfigHead {
    pub allowed_actors: Vec<String>,
    pub base_dir: String,
    pub roles: Vec<DispatchRoleConfig>,
    pub directives: Vec<DispatchDirectiveConfig>,
    pub prompt_envelopes: DispatchPromptEnvelopeConfig,
    pub control_plane_token_file: Option<String>,
}

/// The head of a config, part by part.
pub struct HeadSpec {
    pub allowed_actors: Seq<Seq<char>>,
    pub base: Seq<char>,
    pub roles: Seq<RoleSpec>,
    pub directives: Seq<DirectiveSpec>,
    pub envelopes: Seq<Seq<char>>,
    pub control_token: Option<Seq<char>>,
}

/// The view of a head.
pub open spec fn head_view(h: ConfigHead) -> HeadSpec {
    HeadSpec {
        allowed_actors: views(h.allowed_actors@),
        base: h.base_dir@,
        roles: role_views(h.roles@),
        directives: directive_views(h.directives@),
        envelopes: envelope_files(h.prompt_envelopes),
        control_token: opt_view(h.control_plane_token_file),
    }
}

/// The token of the control plane with its path resolved.
pub open spec fn control_read(raw: Option<String>, base: Seq<char>, home: Option<Seq<char>>) -> Result<
    Option<Seq<char>>,
    Seq<char>,
> {
    match raw {
        None => Ok(None),
        Some(t) => match resolved(base, t@, home) {
            Ok(p) => Ok(Some(p)),
            Err(e) => Err(e),
        },
    }
}

/// The head of a config, or what is wrong with it.
pub open spec fn head_read(path: Seq<char>, f: DispatchConfigFile, home: Option<Seq<char>>) -> Result<
    HeadSpec,
    Seq<char>,
> {
    if f.version != 1 {
        Err(
            "unsupported dispatch config version "@ + crate::text::decimal(f.version as nat)
                + " in "@ + path,
        )
    } else if f.allowed_actors@.len() == 0 {
        Err("dispatch config "@ + path + " has empty allowed_actors"@)
    } else if parent_of(path) is None {
        Err("dispatch config has no parent: "@ + path)
    } else if actors_read(views(f.allowed_actors@)).len() == 0 {
        Err("dispatch config "@ + path + " has empty allowed_actors"@)
    } else {
        let base = parent_of(path)->0;
        match roles_read(Seq::empty(), f.roles@, base, home) {
            Err(e) => Err(e),
            Ok(roles) => match directives_read(Seq::empty(), f.directives@, base, home) {
                Err(e) => Err(e),
                Ok(directives) => match paths_resolved(
                    envelope_files(f.prompt_envelopes),
                    base,
                    home,
                ) {
                    Err(e) => Err(e),
                    Ok(envelopes) => match control_read(f.control_plane_token_file, base, home) {
                        Err(e) => Err(e),
                        Ok(control_token) => Ok(
                            HeadSpec {
                                allowed_actors: actors_read(views(f.allowed_actors@)),
                                base,
                                roles,
                                directives,
                                envelopes,
                                control_token,
                            },
                        ),
                    },
                },
            },
        }
    }
}

/// Reads the head of a config. The role cards that the rest needs can be looked up from it.
pub fn read_config_head(path: &str, file: &DispatchConfigFile, home: &Option<String>) -> (r: Result<
    ConfigHead,
    String,
>)
    ensures
        match head_read(path@, *file, opt_view(*home)) {
            Ok(s) => r matches Ok(h) && head_view(h) == s,
            Err(m) => r matches Err(e) && e@ == m,
        },
{
    if file.version != 1 {
        return Err(
            cat4(
                "unsupported dispatch config version ",
                u64_text(file.version as u64).as_str(),
                " in ",
                path,
            ),
        );
    }
    if file.allowed_actors.len() == 0 {
        return Err(cat3("dispatch config ", path, " has empty allowed_actors"));
    }
    let base_dir = match path_parent(path) {
        Some(dir) => dir,
        None => {
            return Err(cat2("dispatch config has no parent: ", path));
        },
    };
    let allowed_actors = read_actors(&file.allowed_actors);
    proof {
        assert(views(allowed_actors@).len() == allowed_actors@.len());
    }
    if allowed_actors.len() == 0 {
        return Err(cat3("dispatch config ", path, " has empty allowed_actors"));
    }
    let base = base_dir.as_str();
    let roles = match read_roles(&file.roles, base, home) {
        Ok(v) => v,
        Err(e) => {
            return Err(e);
        },
    };
    let directives = match read_directives(&file.directives, base, home) {
        Ok(v) => v,
        Err(e) => {
            return Err(e);
        },
    };
    let prompt_envelopes = match resolve_envelopes(&file.prompt_envelopes, base, home) {
        Ok(v) => v,
        Err(e) => {
            return Err(e);
        },
    };
    let control_plane_token_file = match &file.control_plane_token_file {
        None => None,
        Some(t) => match resolve_config_path(base, t.as_str(), home) {
            Ok(p) => Some(p),
            Err(e) => {
                return Err(e);
            },
        },
    };
    Ok(
        ConfigHead {
            allowed_actors,
            base_dir,
            roles,
            directives,
            prompt_envelopes,
            control_plane_token_file,
        },
    )
}

/// The owner's own token, which no role may use.
pub open spec fn owner_token(home: Option<Seq<char>>) -> Option<Seq<char>> {
    match crate::paths::expanded("~/.config/forgejo-agent/token"@, home) {
        Ok(p) => Some(p),
        Err(_) => None,
    }
}

/// A whole config, or what is wrong with it: the first fault in the order in which the parts are
/// read.
pub open spec fn config_read(
    path: Seq<char>,
    f: DispatchConfigFile,
    home: Option<Seq<char>>,
    cards: Seq<RoleCard>,
) -> Result<ConfigSpec, Seq<char>> {
    match head_read(path, f, home) {
        Err(e) => Err(e),
        Ok(h) => {
            let names = role_names(h.roles);
            if mappings_fault(path, h.roles, h.control_token, owner_token(home)) is Some {
                Err(mappings_fault(path, h.roles, h.control_token, owner_token(home))->0)
            } else if cards_fault(path, h.envelopes[0], in_order(names.to_set()), cards) is Some {
                Err(cards_fault(path, h.envelopes[0], in_order(names.to_set()), cards)->0)
            } else {
                match acl_compiled(path, f.rank_acl, h.envelopes[0], names, h.allowed_actors, cards) {
                    Err(e) => Err(e),
                    Ok(acl) => match bindings_read(
                        path,
                        Seq::empty(),
                        f.repo_bindings@,
                        h.base,
                        home,
                    ) {
                        Err(e) => Err(e),
                        Ok(bindings) => match triggers_read(
                            path,
                            first_triggers(f.legacy_triggers),
                            f.triggers@,
                            directive_names(h.directives),
                            names,
                        ) {
                            Err(e) => Err(e),
                            Ok(triggers) => if trigger_ids_fault(
                                path,
                                Seq::empty(),
                                triggers,
                            ) is Some {
                                Err(trigger_ids_fault(path, Seq::empty(), triggers)->0)
                            } else {
                                match resolved(h.base, f.notifications.notify_send_bin@, home) {
                                    Err(e) => Err(e),
                                    Ok(notify_send_bin) => match resolved(
                                        h.base,
                                        f.forgejoctl_bin@,
                                        home,
                                    ) {
                                        Err(e) => Err(e),
                                        Ok(forgejoctl_bin) => Ok(
                                            ConfigSpec {
                                                allowed_actors: h.allowed_actors,
                                                envelopes: h.envelopes,
                                                notifications: NotificationsSpec {
                                                    enabled: f.notifications.enabled,
                                                    poll_sec: at_least(
                                                        f.notifications.poll_sec as int,
                                                        1,
                                                    ),
                                                    phases: phases_in_order(
                                                        f.notifications.phases@,
                                                    ),
                                                    app_name: f.notifications.app_name@,
                                                    watch_login: lower(
                                                        f.notifications.watch_login@,
                                                    ),
                                                    notify_send_bin,
                                                },
                                                acl,
                                                roles: h.roles,
                                                control_token: h.control_token,
                                                directives: h.directives,
                                                bindings,
                                                triggers,
                                                guardrails: guardrails_read(f.trigger_guardrails),
                                                forgejoctl_bin,
                                            },
                                        ),
                                    },
                                }
                            },
                        },
                    },
                }
            }
        },
    }
}

/// The config is the one that the parts say.
pub open spec fn config_is(c: DispatchConfig, s: ConfigSpec) -> bool {
    &&& views(c.allowed_actors@) == s.allowed_actors
    &&& envelope_files(c.prompt_envelopes) == s.envelopes
    &&& notifications_view(c.notifications) == s.notifications
    &&& c.rank_acl.wf()
    &&& c.rank_acl.enabled == s.acl.enabled
    &&& c.rank_acl.rank_policies@ == s.acl.ranks
    &&& role_sets(c.rank_acl.role_policies@) == s.acl.roles
    &&& role_views(c.roles@) == s.roles
    &&& opt_view(c.control_plane_token_file) == s.control_token
    &&& directive_views(c.directives@) == s.directives
    &&& binding_views(c.repo_bindings@) == s.bindings
    &&& trigger_views(c.triggers@) == s.triggers
    &&& guardrails_view(c.trigger_guardrails) == s.guardrails
    &&& c.forgejoctl_bin@ == s.forgejoctl_bin
}

/// Compiles a dispatch config from its file and the role cards on disk.
pub fn load_dispatch_config(
    path: &str,
    file: &DispatchConfigFile,
    home: &Option<String>,
    cards: &Vec<RoleCard>,
) -> (r: Result<DispatchConfig, String>)
    ensures
        match config_read(path@, *file, opt_view(*home), cards@) {
            Ok(s) => r matches Ok(c) && config_is(c, s),
            Err(m) => r matches Err(e) && e@ == m,
        },
{
    let head = match read_config_head(path, file, home) {
        Ok(h) => h,
        Err(e) => {
            return Err(e);
        },
    };
    proof {
        assert(envelope_files(head.prompt_envelopes)[0] == head.prompt_envelopes.preamble_file@);
    }
    let owner = match crate::paths::expand_tilde_path("~/.config/forgejo-agent/token", home) {
        Ok(p) => Some(p),
        Err(_) => None,
    };
    match validate_role_mappings(path, &head.roles, &head.control_plane_token_file, &owner) {
        Ok(()) => {},
        Err(e) => {
            return Err(e);
        },
    }
    if let Some(e) = check_cards(path, &head.prompt_envelopes, &head.roles, cards) {
        return Err(e);
    }
    let role_list = role_name_list(&head.roles);
    let rank_acl = match compile_rank_acl_config(
        path,
        &file.rank_acl,
        &head.prompt_envelopes,
        &role_list,
        &head.allowed_actors,
        cards,
    ) {
        Ok(acl) => acl,
        Err(e) => {
            return Err(e);
        },
    };
    let base = head.base_dir.as_str();
    let repo_bindings = match read_bindings(path, &file.repo_bindings, base, home) {
        Ok(v) => v,
        Err(e) => {
            return Err(e);
        },
    };
    let directive_list = directive_name_list(&head.directives);
    let triggers = match read_triggers(
        path,
        file.legacy_triggers,
        &file.triggers,
        &directive_list,
        &role_list,
    ) {
        Ok(v) => v,
        Err(e) => {
            return Err(e);
        },
    };
    if let Some(e) = check_trigger_ids(path, &triggers) {
        return Err(e);
    }
    let n = &file.notifications;
    let notify_send_bin = match resolve_config_path(base, n.notify_send_bin.as_str(), home) {
        Ok(p) => p,
        Err(e) => {
            return Err(e);
        },
    };
    let forgejoctl_bin = match resolve_config_path(base, file.forgejoctl_bin.as_str(), home) {
        Ok(p) => p,
        Err(e) => {
            return Err(e);
        },
    };
    let notifications = DispatchNotificationsConfig {
        enabled: n.enabled,
        poll_sec: if n.poll_sec < 1 { 1 } else { n.poll_sec },
        phases: ordered_phases(&n.phases),
        app_name: n.app_name.clone(),
        watch_login: str_lower(n.watch_login.as_str()),
        notify_send_bin,
    };
    Ok(
        DispatchConfig {
            allowed_actors: head.allowed_actors,
            prompt_envelopes: head.prompt_envelopes,
            notifications,
            rank_acl,
            roles: head.roles,
            control_plane_token_file: head.control_plane_token_file,
            directives: head.directives,
            repo_bindings,
            triggers,
            trigger_guardrails: read_guardrails(&file.trigger_guardrails),
            forgejoctl_bin,
        },
    )
}

/// A config that loads has what its file says, with the least values that make sense: half a minute for a
/// directive, one for each guardrail but the pause, one second for the notices.
pub proof fn law_configs_load_as_written(
    path: Seq<char>,
    f: DispatchConfigFile,
    home: Option<Seq<char>>,
    cards: Seq<RoleCard>,
)
    ensures
        config_read(path, f, home, cards) matches Ok(s) ==> {
            &&& f.version == 1
            &&& s.allowed_actors.len() > 0
            &&& s.guardrails.max_depth_per_issue >= 1 && s.guardrails.max_depth_per_issue
                >= f.trigger_guardrails.max_depth_per_issue && (f.trigger_guardrails.max_depth_per_issue
                >= 1 ==> s.guardrails.max_depth_per_issue == f.trigger_guardrails.max_depth_per_issue)
            &&& s.guardrails.max_dispatches_per_window >= 1 && (
            f.trigger_guardrails.max_dispatches_per_window >= 1 ==> s.guardrails.max_dispatches_per_window
                == f.trigger_guardrails.max_dispatches_per_window)
            &&& s.guardrails.window_sec >= 1 && (f.trigger_guardrails.window_sec >= 1
                ==> s.guardrails.window_sec == f.trigger_guardrails.window_sec)
            &&& s.guardrails.cooldown_sec == f.trigger_guardrails.cooldown_sec
            &&& s.guardrails.deny_immediate_self_loop == f.trigger_guardrails.deny_immediate_self_loop
            &&& s.notifications.enabled == f.notifications.enabled
            &&& s.notifications.poll_sec >= 1 && (f.notifications.poll_sec >= 1
                ==> s.notifications.poll_sec == f.notifications.poll_sec)
            &&& s.notifications.app_name == f.notifications.app_name@
            &&& s.notifications.watch_login == lower(f.notifications.watch_login@)
            &&& s.acl.enabled == f.rank_acl.enabled
            &&& s.control_token is Some <==> f.control_plane_token_file is Some
            &&& s.bindings.len() == f.repo_bindings@.len()
            &&& s.triggers.len() == f.triggers@.len() + (if f.legacy_triggers {
                3int
            } else {
                0int
            })
        },
        f.version != 1 ==> config_read(path, f, home, cards) is Err,
        f.allowed_actors@.len() == 0 ==> config_read(path, f, home, cards) is Err,
{
    if let Ok(s) = config_read(path, f, home, cards) {
        let h = head_read(path, f, home)->Ok_0;
        lemma_bindings_len(path, Seq::empty(), f.repo_bindings@, h.base, home);
        lemma_triggers_len(
            path,
            first_triggers(f.legacy_triggers),
            f.triggers@,
            directive_names(h.directives),
            role_names(h.roles),
        );
    }
}

/// As many bindings are read as are written.
proof fn lemma_bindings_len(
    path: Seq<char>,
    done: Seq<BindingSpec>,
    rest: Seq<DispatchRepoBindingConfig>,
    base: Seq<char>,
    home: Option<Seq<char>>,
)
    ensures
        bindings_read(path, done, rest, base, home) matches Ok(b) ==> b.len() == done.len() + rest.len(),
    decreases rest.len(),
{
    if rest.len() > 0 {
        if let Ok(b) = binding_read(path, done, rest[0], base, home) {
            lemma_bindings_len(path, done.push(b), rest.drop_first(), base, home);
        }
    }
}

/// As many triggers are compiled as are written.
proof fn lemma_triggers_len(
    path: Seq<char>,
    done: Seq<TriggerSpec>,
    rest: Seq<TriggerFile>,
    directives: Seq<Seq<char>>,
    roles: Seq<Seq<char>>,
)
    ensures
        triggers_read(path, done, rest, directives, roles) matches Ok(b) ==> b.len() == done.len()
            + rest.len(),
    decreases rest.len(),
{
    if rest.len() > 0 {
        if let Ok(t) = trigger_compiled(path, rest[0], directives, roles) {
            lemma_triggers_len(path, done.push(t), rest.drop_first(), directives, roles);
        }
    }
}

/// A role has what its entry says: its name in lower case, its own login or its name, its own argument or
/// its name without the prefix of agents.
pub proof fn law_roles_read_as_written(f: RoleFile, base: Seq<char>, home: Option<Seq<char>>)
    ensures
        role_read(f, base, home) matches Ok(r) ==> {
            &&& r.name == lower(f.name@)
            &&& f.forgejo_login matches Some(l) ==> r.forgejo_login == l@
            &&& f.forgejo_login is None ==> r.forgejo_login == r.name
            &&& f.codex_role_arg matches Some(x) ==> r.codex_role_arg == x@
            &&& f.codex_role_arg is None ==> (if "codex-"@.is_prefix_of(r.name) {
                r.name == "codex-"@ + r.codex_role_arg
            } else {
                r.codex_role_arg == r.name
            })
            &&& resolved(base, f.codex_bin@, home) == Ok::<Seq<char>, Seq<char>>(r.codex_bin)
            &&& resolved(base, f.token_file@, home) == Ok::<Seq<char>, Seq<char>>(r.token_file)
        },
        role_read(f, base, home) is Ok <==> resolved(base, f.codex_bin@, home) is Ok && resolved(
            base,
            f.token_file@,
            home,
        ) is Ok,
{
    let name = lower(f.name@);
    if "codex-"@.is_prefix_of(name) {
        assert(name =~= "codex-"@ + name.skip("codex-"@.len() as int));
    }
}

/// A directive has what its entry says, with half a minute at least.
pub proof fn law_directives_read_as_written(
    f: DispatchDirectiveConfig,
    base: Seq<char>,
    home: Option<Seq<char>>,
)
    ensures
        directive_read(f, base, home) matches Ok(d) ==> d.name == lower(f.name@) && d.role == lower(
            f.role@,
        ) && d.timeout_sec >= 30 && d.timeout_sec >= f.timeout_sec && (f.timeout_sec >= 30
            ==> d.timeout_sec == f.timeout_sec) && resolved(base, f.prompt_file@, home) == Ok::<
            Seq<char>,
            Seq<char>,
        >(d.prompt_file),
{
}

/// A repository is bound as its entry says, once, and with a remote and a base.
pub proof fn law_bindings_read_as_written(
    path: Seq<char>,
    done: Seq<BindingSpec>,
    f: DispatchRepoBindingConfig,
    base: Seq<char>,
    home: Option<Seq<char>>,
)
    ensures
        binding_read(path, done, f, base, home) matches Ok(b) ==> {
            &&& b.git_remote == trim(f.git_remote@) && b.git_remote.len() > 0
            &&& b.git_base == trim(f.git_base@) && b.git_base.len() > 0
            &&& resolved(base, f.local_path@, home) == Ok::<Seq<char>, Seq<char>>(b.local_path)
            &&& repo_parts(f.repo@) matches Some(p) && b.repo == p.0 + "/"@ + p.1
            &&& forall|k: int| 0 <= k < done.len() ==> (#[trigger] done[k]).repo != b.repo
        },
{
    if let Ok(b) = binding_read(path, done, f, base, home) {
        crate::text::lemma_first_at(binding_repos(done), b.repo);
        assert forall|k: int| 0 <= k < done.len() implies (#[trigger] done[k]).repo != b.repo by {
            assert(binding_repos(done)[k] == done[k].repo);
        }
    }
}

/// The phases that are told are those that were asked for, each once.
pub proof fn law_asked_phases_are_kept(
    raw: Seq<DispatchNotificationPhase>,
    p: DispatchNotificationPhase,
)
    ensures
        phases_in_order(raw).contains(p) <==> raw.contains(p),
{
    let keep = |q: DispatchNotificationPhase| raw.contains(q);
    let order = phase_order();
    let k = match p {
        DispatchNotificationPhase::Started => 0int,
        DispatchNotificationPhase::Completed => 1int,
        DispatchNotificationPhase::Failed => 2int,
        DispatchNotificationPhase::Blocked => 3int,
    };
    assert(order[k] == p);
    if raw.contains(p) {
        order.lemma_filter_contains(keep, k);
    }
    if phases_in_order(raw).contains(p) {
        let i = choose|i: int| 0 <= i < phases_in_order(raw).len() && phases_in_order(raw)[i] == p;
        order.lemma_filter_pred(keep, i);
    }
}

/// The actors that are allowed are those of the file, in lower case and without blanks around them.
pub proof fn law_allowed_actors_are_normal(raw: Seq<Seq<char>>, x: Seq<char>)
    ensures
        actors_read(raw).contains(x) <==> x.len() > 0 && exists|k: int|
            0 <= k < raw.len() && norm(#[trigger] raw[k]) == x,
{
    let m = raw.map_values(|a: Seq<char>| norm(a));
    let keep = |a: Seq<char>| a.len() > 0;
    if actors_read(raw).contains(x) {
        let i = choose|i: int| 0 <= i < actors_read(raw).len() && actors_read(raw)[i] == x;
        m.lemma_filter_pred(keep, i);
        m.lemma_filter_contains_rev(keep, x);
        let k = choose|k: int| 0 <= k < m.len() && m[k] == x;
        assert(norm(raw[k]) == x);
    }
    if x.len() > 0 && exists|k: int| 0 <= k < raw.len() && norm(#[trigger] raw[k]) == x {
        let k = choose|k: int| 0 <= k < raw.len() && norm(#[trigger] raw[k]) == x;
        assert(m[k] == x);
        m.lemma_filter_contains(keep, k);
    }
}

/// No two triggers of a config have one id.
pub proof fn law_trigger_ids_are_unique(path: Seq<char>, seen: Seq<Seq<char>>, rest: Seq<TriggerSpec>)
    ensures
        trigger_ids_fault(path, seen, rest) is None <==> (forall|k: int|
            0 <= k < rest.len() ==> !seen.contains((#[trigger] rest[k]).id)) && forall|i: int, j: int|
            0 <= i < j < rest.len() ==> (#[trigger] rest[i]).id != (#[trigger] rest[j]).id,
    decreases rest.len(),
{
    if rest.len() > 0 {
        let t = rest.drop_first();
        let more = seen.push(rest[0].id);
        law_trigger_ids_are_unique(path, more, t);
        assert forall|k: int| 0 <= k < t.len() implies #[trigger] t[k] == rest[k + 1] by {}
        assert forall|x: Seq<char>| #[trigger] more.contains(x) <==> seen.contains(x) || x
            == rest[0].id by {
            if more.contains(x) {
                let i = choose|i: int| 0 <= i < more.len() && more[i] == x;
                if i < seen.len() {
                    assert(seen[i] == x);
                }
            }
            if seen.contains(x) {
                let i = choose|i: int| 0 <= i < seen.len() && seen[i] == x;
                assert(more[i] == x);
            }
            assert(more[seen.len() as int] == rest[0].id);
        }
        if trigger_ids_fault(path, seen, rest) is None {
            assert forall|k: int| 0 <= k < rest.len() implies !seen.contains((#[trigger] rest[k]).id) by {
                if k > 0 {
                    assert(t[k - 1] == rest[k]);
                }
            }
            assert forall|i: int, j: int| 0 <= i < j < rest.len() implies (#[trigger] rest[i]).id != (
            #[trigger] rest[j]).id by {
                assert(t[j - 1] == rest[j]);
                assert(!more.contains(t[j - 1].id));
                if i > 0 {
                    assert(t[i - 1] == rest[i]);
                }
            }
        }
        if (forall|k: int| 0 <= k < rest.len() ==> !seen.contains((#[trigger] rest[k]).id)) && (forall|
            i: int,
            j: int,
        |
            0 <= i < j < rest.len() ==> (#[trigger] rest[i]).id != (#[trigger] rest[j]).id) {
            assert forall|k: int| 0 <= k < t.len() implies !more.contains((#[trigger] t[k]).id) by {
                assert(rest[0].id != rest[k + 1].id);
            }
            assert forall|i: int, j: int| 0 <= i < j < t.len() implies (#[trigger] t[i]).id != (
            #[trigger] t[j]).id by {
                assert(rest[i + 1].id != rest[j + 1].id);
            }
        }
    }
}

/// A role is entered where there is none of its name, and takes the place of the one that there is; the
/// others stay.
pub proof fn law_later_roles_replace_earlier_ones(roles: Seq<RoleSpec>, role: RoleSpec, k: int)
    ensures
        ({
            let after = put_role(roles, role);
            &&& after.contains(role)
            &&& 0 <= k < roles.len() && roles[k].name != role.name ==> after[k] == roles[k]
            &&& (forall|i: int| 0 <= i < roles.len() ==> (#[trigger] roles[i]).name != role.name) ==> after
                == roles.push(role)
            &&& (exists|i: int| 0 <= i < roles.len() && (#[trigger] roles[i]).name == role.name)
                ==> after.len() == roles.len()
        }),
{
    let names = role_names(roles);
    let after = put_role(roles, role);
    crate::text::lemma_first_at(names, role.name);
    if has_key(names, role.name) {
        let i = first_at(names, role.name);
        assert(after[i] == role);
        assert(names[i] == roles[i].name);
    } else {
        assert(after[roles.len() as int] == role);
    }
    if forall|i: int| 0 <= i < roles.len() ==> (#[trigger] roles[i]).name != role.name {
        assert forall|i: int| 0 <= i < names.len() implies #[trigger] names[i] != role.name by {
            assert(roles[i].name != role.name);
        }
    }
    if exists|i: int| 0 <= i < roles.len() && (#[trigger] roles[i]).name == role.name {
        let i = choose|i: int| 0 <= i < roles.len() && (#[trigger] roles[i]).name == role.name;
        assert(names[i] == role.name);
    }
}

/// A directive is entered where there is none of its name, and takes the place of the one that there is;
/// the others stay.
pub proof fn law_later_directives_replace_earlier_ones(v: Seq<DirectiveSpec>, d: DirectiveSpec, k: int)
    ensures
        ({
            let after = put_directive(v, d);
            &&& after.contains(d)
            &&& 0 <= k < v.len() && v[k].name != d.name ==> after[k] == v[k]
            &&& (forall|i: int| 0 <= i < v.len() ==> (#[trigger] v[i]).name != d.name) ==> after == v.push(
                d,
            )
            &&& (exists|i: int| 0 <= i < v.len() && (#[trigger] v[i]).name == d.name) ==> after.len()
                == v.len()
        }),
{
    let names = directive_names(v);
    let after = put_directive(v, d);
    crate::text::lemma_first_at(names, d.name);
    if has_key(names, d.name) {
        let i = first_at(names, d.name);
        assert(after[i] == d);
        assert(names[i] == v[i].name);
    } else {
        assert(after[v.len() as int] == d);
    }
    if forall|i: int| 0 <= i < v.len() ==> (#[trigger] v[i]).name != d.name {
        assert forall|i: int| 0 <= i < names.len() implies #[trigger] names[i] != d.name by {
            assert(v[i].name != d.name);
        }
    }
    if exists|i: int| 0 <= i < v.len() && (#[trigger] v[i]).name == d.name {
        let i = choose|i: int| 0 <= i < v.len() && (#[trigger] v[i]).name == d.name;
        assert(names[i] == d.name);
    }
}

/// Roles are read in their order: one entry more is read after the others.
pub proof fn law_roles_are_read_in_order(
    done: Seq<RoleSpec>,
    rest: Seq<RoleFile>,
    f: RoleFile,
    base: Seq<char>,
    home: Option<Seq<char>>,
)
    ensures
        roles_read(done, Seq::empty(), base, home) == Ok::<Seq<RoleSpec>, Seq<char>>(done),
        roles_read(done, rest.push(f), base, home) == (match roles_read(done, rest, base, home) {
            Err(e) => Err(e),
            Ok(r) => match role_read(f, base, home) {
                Err(e) => Err(e),
                Ok(x) => Ok(put_role(r, x)),
            },
        }),
    decreases rest.len(),
{
    let all = rest.push(f);
    if rest.len() == 0 {
        assert(all.drop_first() =~= Seq::empty());
        if let Ok(x) = role_read(f, base, home) {
            assert(roles_read(put_role(done, x), Seq::<RoleFile>::empty(), base, home) == Ok::<
                Seq<RoleSpec>,
                Seq<char>,
            >(put_role(done, x)));
        }
    } else {
        assert(all.drop_first() =~= rest.drop_first().push(f));
        if let Ok(x) = role_read(rest[0], base, home) {
            law_roles_are_read_in_order(put_role(done, x), rest.drop_first(), f, base, home);
        }
    }
}

/// Directives are read in their order: one entry more is read after the others.
pub proof fn law_directives_are_read_in_order(
    done: Seq<DirectiveSpec>,
    rest: Seq<DispatchDirectiveConfig>,
    f: DispatchDirectiveConfig,
    base: Seq<char>,
    home: Option<Seq<char>>,
)
    ensures
        directives_read(done, Seq::empty(), base, home) == Ok::<Seq<DirectiveSpec>, Seq<char>>(done),
        directives_read(done, rest.push(f), base, home) == (match directives_read(
            done,
            rest,
            base,
            home,
        ) {
            Err(e) => Err(e),
            Ok(r) => match directive_read(f, base, home) {
                Err(e) => Err(e),
                Ok(x) => Ok(put_directive(r, x)),
            },
        }),
    decreases rest.len(),
{
    let all = rest.push(f);
    if rest.len() == 0 {
        assert(all.drop_first() =~= Seq::empty());
        if let Ok(x) = directive_read(f, base, home) {
            assert(directives_read(
                put_directive(done, x),
                Seq::<DispatchDirectiveConfig>::empty(),
                base,
                home,
            ) == Ok::<Seq<DirectiveSpec>, Seq<char>>(put_directive(done, x)));
        }
    } else {
        assert(all.drop_first() =~= rest.drop_first().push(f));
        if let Ok(x) = directive_read(rest[0], base, home) {
            law_directives_are_read_in_order(put_directive(done, x), rest.drop_first(), f, base, home);
        }
    }
}

/// Paths are resolved one by one, and all of them must be.
pub proof fn law_paths_are_resolved_one_by_one(
    raw: Seq<Seq<char>>,
    base: Seq<char>,
    home: Option<Seq<char>>,
    k: int,
)
    ensures
        paths_resolved(raw, base, home) matches Ok(p) ==> p.len() == raw.len() && (0 <= k < raw.len()
            ==> resolved(base, raw[k], home) == Ok::<Seq<char>, Seq<char>>(p[k])),
        0 <= k < raw.len() && resolved(base, raw[k], home) is Err ==> paths_resolved(raw, base, home)
            is Err,
    decreases raw.len(),
{
    if raw.len() > 0 {
        law_paths_are_resolved_one_by_one(raw.drop_last(), base, home, k);
        assert(raw[raw.len() - 1] == raw.last());
        if 0 <= k < raw.len() - 1 {
            assert(raw.drop_last()[k] == raw[k]);
        }
    }
}

/// The cards are sound exactly where each role has one that gives its rank.
pub proof fn law_every_role_has_its_card(
    path: Seq<char>,
    preamble: Seq<char>,
    roles: Seq<Seq<char>>,
    cards: Seq<RoleCard>,
)
    ensures
        cards_fault(path, preamble, roles, cards) is None <==> forall|k: int|
            0 <= k < roles.len() ==> card_verdict(
                path,
                preamble,
                #[trigger] roles[k],
                card_of(cards, roles[k]),
            ) is Ok,
    decreases roles.len(),
{
    if roles.len() > 0 {
        let t = roles.drop_first();
        law_every_role_has_its_card(path, preamble, t, cards);
        assert forall|k: int| 0 <= k < t.len() implies #[trigger] t[k] == roles[k + 1] by {}
        if cards_fault(path, preamble, roles, cards) is None {
            assert forall|k: int| 0 <= k < roles.len() implies card_verdict(
                path,
                preamble,
                #[trigger] roles[k],
                card_of(cards, roles[k]),
            ) is Ok by {
                if k > 0 {
                    assert(t[k - 1] == roles[k]);
                }
            }
        } else if card_verdict(path, preamble, roles[0], card_of(cards, roles[0])) is Ok {
            let k = choose|k: int|
                0 <= k < t.len() && !(card_verdict(path, preamble, #[trigger] t[k], card_of(cards, t[k]))
                    is Ok);
            assert(roles[k + 1] == t[k]);
        }
    }
}

/// The triggers of a config are those that every config has, where they are not switched off, and then
/// those of the file, in their order.
pub proof fn law_triggers_are_read_in_order(
    path: Seq<char>,
    done: Seq<TriggerSpec>,
    rest: Seq<TriggerFile>,
    directives: Seq<Seq<char>>,
    roles: Seq<Seq<char>>,
    k: int,
)
    ensures
        triggers_read(path, done, rest, directives, roles) matches Ok(t) ==> {
            &&& t.len() == done.len() + rest.len()
            &&& done.is_prefix_of(t)
            &&& 0 <= k < rest.len() ==> trigger_compiled(path, rest[k], directives, roles) == Ok::<
                TriggerSpec,
                Seq<char>,
            >(t[done.len() + k])
        },
        first_triggers(true) == legacy_triggers(),
        first_triggers(false).len() == 0,
    decreases rest.len(),
{
    if rest.len() == 0 {
        assert(done.take(done.len() as int) =~= done);
    } else if let Ok(x) = trigger_compiled(path, rest[0], directives, roles) {
        let more = done.push(x);
        let r = rest.drop_first();
        law_triggers_are_read_in_order(path, more, r, directives, roles, k - 1);
        if let Ok(t) = triggers_read(path, done, rest, directives, roles) {
            assert(t[done.len() as int] == more[done.len() as int]);
            assert(done =~= t.take(done.len() as int));
            if 0 < k < rest.len() {
                assert(r[k - 1] == rest[k]);
            }
        }
    }
}

/// A config that is loaded has its files where the entries say, seen from its directory; its roles,
/// directives and actors are those of the file, each role has a card, and no credentials are shared.
pub proof fn law_loaded_configs_have_what_was_read(
    path: Seq<char>,
    f: DispatchConfigFile,
    home: Option<Seq<char>>,
    cards: Seq<RoleCard>,
    c: DispatchConfig,
    base: Seq<char>,
)
    requires
        config_read(path, f, home, cards) is Ok,
        config_is(c, config_read(path, f, home, cards)->Ok_0),
        parent_of(path) == Some(base),
    ensures
        resolved(base, f.prompt_envelopes.preamble_file@, home) == Ok::<Seq<char>, Seq<char>>(
            c.prompt_envelopes.preamble_file@,
        ),
        resolved(base, f.prompt_envelopes.fresh_envelope@, home) == Ok::<Seq<char>, Seq<char>>(
            c.prompt_envelopes.fresh_envelope@,
        ),
        resolved(base, f.prompt_envelopes.followup_envelope@, home) == Ok::<Seq<char>, Seq<char>>(
            c.prompt_envelopes.followup_envelope@,
        ),
        resolved(base, f.prompt_envelopes.turn_context_file@, home) == Ok::<Seq<char>, Seq<char>>(
            c.prompt_envelopes.turn_context_file@,
        ),
        resolved(base, f.prompt_envelopes.issue_fresh_file@, home) == Ok::<Seq<char>, Seq<char>>(
            c.prompt_envelopes.issue_fresh_file@,
        ),
        resolved(base, f.prompt_envelopes.issue_followup_file@, home) == Ok::<Seq<char>, Seq<char>>(
            c.prompt_envelopes.issue_followup_file@,
        ),
        resolved(base, f.forgejoctl_bin@, home) == Ok::<Seq<char>, Seq<char>>(c.forgejoctl_bin@),
        resolved(base, f.notifications.notify_send_bin@, home) == Ok::<Seq<char>, Seq<char>>(
            c.notifications.notify_send_bin@,
        ),
        f.control_plane_token_file is None ==> c.control_plane_token_file is None,
        f.control_plane_token_file matches Some(t) ==> (c.control_plane_token_file matches Some(x)
            && resolved(base, t@, home) == Ok::<Seq<char>, Seq<char>>(x@)),
        views(c.allowed_actors@) == actors_read(views(f.allowed_actors@)),
        roles_read(Seq::empty(), f.roles@, base, home) == Ok::<Seq<RoleSpec>, Seq<char>>(
            role_views(c.roles@),
        ),
        directives_read(Seq::empty(), f.directives@, base, home) == Ok::<Seq<DirectiveSpec>, Seq<char>>(
            directive_views(c.directives@),
        ),
        bindings_read(path, Seq::empty(), f.repo_bindings@, base, home) == Ok::<
            Seq<BindingSpec>,
            Seq<char>,
        >(binding_views(c.repo_bindings@)),
        mappings_fault(
            path,
            role_views(c.roles@),
            opt_view(c.control_plane_token_file),
            owner_token(home),
        ) is None,
        trigger_ids_fault(path, Seq::empty(), trigger_views(c.triggers@)) is None,
        c.notifications.phases@ == phases_in_order(f.notifications.phases@),
{
    let e = envelope_files(f.prompt_envelopes);
    let r = envelope_files(c.prompt_envelopes);
    law_paths_are_resolved_one_by_one(e, base, home, 0);
    law_paths_are_resolved_one_by_one(e, base, home, 1);
    law_paths_are_resolved_one_by_one(e, base, home, 2);
    law_paths_are_resolved_one_by_one(e, base, home, 3);
    law_paths_are_resolved_one_by_one(e, base, home, 4);
    law_paths_are_resolved_one_by_one(e, base, home, 5);
    assert(r[0] == c.prompt_envelopes.preamble_file@ && r[1] == c.prompt_envelopes.fresh_envelope@
        && r[2] == c.prompt_envelopes.followup_envelope@ && r[3]
        == c.prompt_envelopes.turn_context_file@ && r[4] == c.prompt_envelopes.issue_fresh_file@ && r[5]
        == c.prompt_envelopes.issue_followup_file@);
}

} // verus!
