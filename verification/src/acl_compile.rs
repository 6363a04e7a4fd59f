//! Compiles the rank ACL of a dispatch config.

use crate::envelopes::{card_path, DispatchPromptEnvelopeConfig};
use crate::names::{in_order, NameSet};
use crate::rank_acl::{
    card_rank, compile_acl_directive_surfaces, default_rank_directives, default_ranks, no_ranks,
    parse_role_card_rank, policy_sets, rank_number, rank_text, role_keys, AclPolicy,
    AclPolicyFile, AclSets, DispatchRank, DispatchRankAclConfig, RankTable, RolePolicy,
};
use crate::text::{
    cat2, cat3, cat4, cat5, cat6, cat7, first_at, has_key, join, lemma_first_at,
    lemma_first_at_is, lines, norm, str_eq, str_join, str_norm, views,
};
use vstd::prelude::*;
use vstd::string::*;

verus! {

/// A policy of the config under its key.
pub struct PolicyEntry {
    pub key: String,
    pub policy: AclPolicyFile,
}

/// The rank ACL as the config writes it.
pub struct RankAclFile {
    pub enabled: bool,
    pub ranks: Vec<PolicyEntry>,
    pub role_overrides: Vec<PolicyEntry>,
}

/// What is on disk where a role card should be.
pub enum CardFile {
    /// No file.
    Absent,
    /// A file that could not be read.
    Unreadable,
    /// The text of the card.
    Text(String),
}

/// The card of a role.
pub struct RoleCard {
    pub role: String,
    pub file: CardFile,
}

/// The roles of cards.
pub open spec fn card_keys(cards: Seq<RoleCard>) -> Seq<Seq<char>> {
    cards.map_values(|c: RoleCard| c.role@)
}

/// What is on disk for the role: the first card under its name, no file where there is none.
pub open spec fn card_of(cards: Seq<RoleCard>, role: Seq<char>) -> CardFile {
    if has_key(card_keys(cards), role) {
        cards[first_at(card_keys(cards), role)].file
    } else {
        CardFile::Absent
    }
}

/// The rank number that a card gives its role, or what is wrong with the card.
pub open spec fn card_verdict(
    path: Seq<char>,
    preamble: Seq<char>,
    role: Seq<char>,
    file: CardFile,
) -> Result<nat, Seq<char>> {
    match file {
        CardFile::Absent => Err(
            "dispatch config "@ + path + " missing role card for role "@ + role + " at "@
                + card_path(preamble, role),
        ),
        CardFile::Unreadable => Err(
            "failed reading role card "@ + card_path(preamble, role) + " for role "@ + role,
        ),
        CardFile::Text(t) => match card_rank(lines(t@)) {
            Some(n) => Ok(n),
            None => Err(
                "dispatch config "@ + path + " role card for role "@ + role
                    + " is missing rank bullet '- OF-<n>' at "@ + card_path(preamble, role),
            ),
        },
    }
}

/// The rank that the card of a role gives it.
pub fn read_role_card_rank(
    config_path: &str,
    prompt_envelopes: &DispatchPromptEnvelopeConfig,
    role_name: &str,
    cards: &Vec<RoleCard>,
) -> (r: Result<DispatchRank, String>)
    ensures
        match card_verdict(
            config_path@,
            prompt_envelopes.preamble_file@,
            role_name@,
            card_of(cards@, role_name@),
        ) {
            Ok(n) => r matches Ok(rank) && rank.0 == n,
            Err(m) => r matches Err(e) && e@ == m,
        },
{
    let ghost keys = card_keys(cards@);
    let file_path = prompt_envelopes.role_card_file_for(role_name);
    let mut i: usize = 0;
    while i < cards.len()
        invariant
            i <= cards@.len(),
            keys == card_keys(cards@),
            file_path@ == card_path(prompt_envelopes.preamble_file@, role_name@),
            forall|k: int| 0 <= k < i ==> #[trigger] keys[k] != role_name@,
        decreases cards.len() - i,
    {
        proof {
            assert(keys[i as int] == cards@[i as int].role@);
        }
        if str_eq(cards[i].role.as_str(), role_name) {
            proof {
                lemma_first_at_is(keys, role_name@, i as int);
            }
            return match &cards[i].file {
                CardFile::Absent => Err(absent_card(config_path, role_name, file_path.as_str())),
                CardFile::Unreadable => Err(
                    cat4("failed reading role card ", file_path.as_str(), " for role ", role_name),
                ),
                CardFile::Text(t) => match parse_role_card_rank(t.as_str()) {
                    Some(rank) => Ok(rank),
                    None => Err(
                        cat6(
                            "dispatch config ",
                            config_path,
                            " role card for role ",
                            role_name,
                            " is missing rank bullet '- OF-<n>' at ",
                            file_path.as_str(),
                        ),
                    ),
                },
            };
        }
        i = i + 1;
    }
    proof {
        lemma_first_at_is(keys, role_name@, i as int);
    }
    Err(absent_card(config_path, role_name, file_path.as_str()))
}

/// The message for a role without a card.
fn absent_card(config_path: &str, role_name: &str, file: &str) -> (r: String)
    ensures
        r@ == "dispatch config "@ + config_path@ + " missing role card for role "@ + role_name@
            + " at "@ + file@,
{
    cat6(
        "dispatch config ",
        config_path,
        " missing role card for role ",
        role_name,
        " at ",
        file,
    )
}

/// The rank policies: the defaults with those of the config in their place, in the order given.
pub open spec fn ranks_compiled(path: Seq<char>, entries: Seq<PolicyEntry>) -> Result<
    Seq<Option<AclSets>>,
    Seq<char>,
>
    decreases entries.len(),
{
    if entries.len() == 0 {
        Ok(default_ranks())
    } else {
        match ranks_compiled(path, entries.drop_last()) {
            Err(e) => Err(e),
            Ok(table) => {
                let key = entries.last().key@;
                match rank_number(key) {
                    None => Err(
                        "dispatch config "@ + path + " rank_acl has invalid rank key '"@ + key
                            + "'"@,
                    ),
                    Some(n) => match policy_sets(
                        path,
                        "rank_acl.ranks."@ + rank_text(DispatchRank(n as u8)),
                        entries.last().policy,
                    ) {
                        Err(e) => Err(e),
                        Ok(sets) => Ok(table.update(n as int, Some(sets))),
                    },
                }
            },
        }
    }
}

/// Once the rank policies have failed, further entries do not mend them.
proof fn lemma_ranks_fail(path: Seq<char>, entries: Seq<PolicyEntry>, i: int)
    requires
        0 <= i <= entries.len(),
        ranks_compiled(path, entries.take(i)) is Err,
    ensures
        ranks_compiled(path, entries) == ranks_compiled(path, entries.take(i)),
    decreases entries.len(),
{
    if i == entries.len() {
        assert(entries.take(i) =~= entries);
    } else {
        assert(entries.drop_last().take(i) =~= entries.take(i));
        lemma_ranks_fail(path, entries.drop_last(), i);
    }
}

/// Compiles the rank policies of the config over the defaults.
fn compile_ranks(config_path: &str, entries: &Vec<PolicyEntry>) -> (r: Result<RankTable, String>)
    ensures
        match ranks_compiled(config_path@, entries@) {
            Ok(t) => r matches Ok(table) && table.wf() && table@ == t,
            Err(m) => r matches Err(e) && e@ == m,
        },
{
    let mut table = default_rank_directives();
    let mut i: usize = 0;
    proof {
        assert(entries@.take(0) =~= Seq::<PolicyEntry>::empty());
    }
    while i < entries.len()
        invariant
            i <= entries@.len(),
            table.wf(),
            ranks_compiled(config_path@, entries@.take(i as int)) == Ok::<
                Seq<Option<AclSets>>,
                Seq<char>,
            >(table@),
        decreases entries.len() - i,
    {
        proof {
            assert(entries@.take(i + 1).drop_last() =~= entries@.take(i as int));
            assert(entries@.take(i + 1).last() == entries@[i as int]);
            if ranks_compiled(config_path@, entries@.take(i + 1)) is Err {
                lemma_ranks_fail(config_path@, entries@, i + 1);
            }
        }
        let key = entries[i].key.as_str();
        let rank = match DispatchRank::parse(key) {
            Ok(rank) => rank,
            Err(_) => {
                return Err(
                    cat5(
                        "dispatch config ",
                        config_path,
                        " rank_acl has invalid rank key '",
                        key,
                        "'",
                    ),
                );
            },
        };
        let source = cat2("rank_acl.ranks.", rank.text().as_str());
        match compile_acl_directive_surfaces(config_path, source.as_str(), &entries[i].policy) {
            Ok(policy) => {
                table.put(rank, policy);
            },
            Err(e) => {
                return Err(e);
            },
        }
        i = i + 1;
    }
    proof {
        assert(entries@.take(entries@.len() as int) =~= entries@);
    }
    Ok(table)
}

/// The directive sets that the config gives a role.
pub struct NamedSets {
    pub name: Seq<char>,
    pub sets: AclSets,
}

/// The names of role overrides.
pub open spec fn override_keys(v: Seq<NamedSets>) -> Seq<Seq<char>> {
    v.map_values(|n: NamedSets| n.name)
}

/// The role overrides of the config, or what is wrong with the first bad one.
pub open spec fn overrides_compiled(path: Seq<char>, entries: Seq<PolicyEntry>) -> Result<
    Seq<NamedSets>,
    Seq<char>,
>
    decreases entries.len(),
{
    if entries.len() == 0 {
        Ok(Seq::empty())
    } else {
        match overrides_compiled(path, entries.drop_last()) {
            Err(e) => Err(e),
            Ok(found) => {
                let role = norm(entries.last().key@);
                if role.len() == 0 {
                    Err(
                        "dispatch config "@ + path + " rank_acl has empty role override key"@,
                    )
                } else if override_keys(found).contains(role) {
                    Err(
                        "dispatch config "@ + path + " rank_acl has duplicate role override '"@
                            + role + "'"@,
                    )
                } else {
                    match policy_sets(
                        path,
                        "rank_acl.role_overrides."@ + role,
                        entries.last().policy,
                    ) {
                        Err(e) => Err(e),
                        Ok(sets) => Ok(found.push(NamedSets { name: role, sets })),
                    }
                }
            },
        }
    }
}

/// Once the role overrides have failed, further entries do not mend them.
proof fn lemma_overrides_fail(path: Seq<char>, entries: Seq<PolicyEntry>, i: int)
    requires
        0 <= i <= entries.len(),
        overrides_compiled(path, entries.take(i)) is Err,
    ensures
        overrides_compiled(path, entries) == overrides_compiled(path, entries.take(i)),
    decreases entries.len(),
{
    if i == entries.len() {
        assert(entries.take(i) =~= entries);
    } else {
        assert(entries.drop_last().take(i) =~= entries.take(i));
        lemma_overrides_fail(path, entries.drop_last(), i);
    }
}

/// A role override.
struct RoleOverride {
    name: String,
    policy: AclPolicy,
}

/// The names and sets of role overrides.
spec fn override_sets(v: Seq<RoleOverride>) -> Seq<NamedSets> {
    v.map_values(|o: RoleOverride| NamedSets { name: o.name@, sets: o.policy.sets() })
}

/// The overrides are well-formed.
spec fn overrides_wf(v: Seq<RoleOverride>) -> bool {
    forall|i: int| 0 <= i < v.len() ==> (#[trigger] v[i]).policy.wf()
}

/// The index of the override of a role.
fn find_override(v: &Vec<RoleOverride>, role: &str) -> (r: Option<usize>)
    ensures
        r is Some <==> has_key(override_keys(override_sets(v@)), role@),
        r is Some <==> override_keys(override_sets(v@)).contains(role@),
        r matches Some(i) ==> i < v@.len() && i == first_at(
            override_keys(override_sets(v@)),
            role@,
        ),
{
    let ghost keys = override_keys(override_sets(v@));
    let mut i: usize = 0;
    proof {
        lemma_first_at(keys, role@);
    }
    while i < v.len()
        invariant
            i <= v@.len(),
            keys == override_keys(override_sets(v@)),
            has_key(keys, role@) <==> keys.contains(role@),
            forall|k: int| 0 <= k < i ==> #[trigger] keys[k] != role@,
        decreases v.len() - i,
    {
        proof {
            assert(keys[i as int] == v@[i as int].name@);
        }
        if str_eq(v[i].name.as_str(), role) {
            proof {
                lemma_first_at_is(keys, role@, i as int);
            }
            return Some(i);
        }
        i = i + 1;
    }
    proof {
        lemma_first_at_is(keys, role@, i as int);
    }
    None
}

/// Compiles the role overrides of the config.
fn compile_overrides(config_path: &str, entries: &Vec<PolicyEntry>) -> (r: Result<
    Vec<RoleOverride>,
    String,
>)
    ensures
        match overrides_compiled(config_path@, entries@) {
            Ok(s) => r matches Ok(v) && overrides_wf(v@) && override_sets(v@) == s,
            Err(m) => r matches Err(e) && e@ == m,
        },
{
    let mut out: Vec<RoleOverride> = Vec::new();
    let mut i: usize = 0;
    proof {
        assert(entries@.take(0) =~= Seq::<PolicyEntry>::empty());
        assert(override_sets(out@) =~= Seq::<NamedSets>::empty());
    }
    while i < entries.len()
        invariant
            i <= entries@.len(),
            overrides_wf(out@),
            overrides_compiled(config_path@, entries@.take(i as int)) == Ok::<
                Seq<NamedSets>,
                Seq<char>,
            >(override_sets(out@)),
        decreases entries.len() - i,
    {
        let ghost before = override_sets(out@);
        proof {
            assert(entries@.take(i + 1).drop_last() =~= entries@.take(i as int));
            assert(entries@.take(i + 1).last() == entries@[i as int]);
            if overrides_compiled(config_path@, entries@.take(i + 1)) is Err {
                lemma_overrides_fail(config_path@, entries@, i + 1);
            }
        }
        let role = str_norm(entries[i].key.as_str());
        if role.as_str().is_empty() {
            return Err(
                cat3("dispatch config ", config_path, " rank_acl has empty role override key"),
            );
        }
        if find_override(&out, role.as_str()).is_some() {
            return Err(
                cat5(
                    "dispatch config ",
                    config_path,
                    " rank_acl has duplicate role override '",
                    role.as_str(),
                    "'",
                ),
            );
        }
        let source = cat2("rank_acl.role_overrides.", role.as_str());
        match compile_acl_directive_surfaces(config_path, source.as_str(), &entries[i].policy) {
            Ok(policy) => {
                let ghost added = NamedSets { name: role@, sets: policy.sets() };
                out.push(RoleOverride { name: role, policy });
                proof {
                    assert(override_sets(out@) =~= before.push(added));
                }
            },
            Err(e) => {
                return Err(e);
            },
        }
        i = i + 1;
    }
    proof {
        assert(entries@.take(entries@.len() as int) =~= entries@);
    }
    Ok(out)
}


/// The rank number and the directive sets that a role ends up with.
pub struct RoleSets {
    pub name: Seq<char>,
    pub rank: nat,
    pub sets: AclSets,
}

/// The directives of `wide` beyond those of `narrow`, as a message lists them.
pub open spec fn widened(wide: Set<Seq<char>>, narrow: Set<Seq<char>>) -> Seq<Seq<char>> {
    in_order(wide).filter(|x: Seq<char>| !narrow.contains(x))
}

/// The policy of one role: that of its rank, or its override, which may not widen that of the rank.
pub open spec fn role_compiled(
    path: Seq<char>,
    preamble: Seq<char>,
    cards: Seq<RoleCard>,
    ranks: Seq<Option<AclSets>>,
    overrides: Seq<NamedSets>,
    role: Seq<char>,
) -> Result<RoleSets, Seq<char>> {
    match card_verdict(path, preamble, role, card_of(cards, role)) {
        Err(e) => Err(e),
        Ok(n) => {
            let rank = rank_text(DispatchRank(n as u8));
            match ranks[n as int] {
                None => Err(
                    "dispatch config "@ + path + " rank_acl is missing directives for rank "@ + rank
                        + " (role '"@ + role + "')"@,
                ),
                Some(base) => if !has_key(override_keys(overrides), role) {
                    Ok(RoleSets { name: role, rank: n, sets: base })
                } else {
                    let own = overrides[first_at(override_keys(overrides), role)].sets;
                    if widened(own.own, base.own).len() > 0 {
                        Err(
                            "dispatch config "@ + path + " rank_acl.role_overrides."@ + role
                                + " widens rank "@ + rank
                                + " own_directives envelope with directives: "@ + join(
                                widened(own.own, base.own),
                                ", "@,
                            ),
                        )
                    } else if widened(own.delegation, base.delegation).len() > 0 {
                        Err(
                            "dispatch config "@ + path + " rank_acl.role_overrides."@ + role
                                + " widens rank "@ + rank
                                + " delegation_directives envelope with directives: "@ + join(
                                widened(own.delegation, base.delegation),
                                ", "@,
                            ),
                        )
                    } else {
                        Ok(RoleSets { name: role, rank: n, sets: own })
                    }
                },
            }
        },
    }
}

/// The policies of the roles in the order given, or what is wrong with the first bad one.
pub open spec fn roles_compiled(
    path: Seq<char>,
    preamble: Seq<char>,
    cards: Seq<RoleCard>,
    ranks: Seq<Option<AclSets>>,
    overrides: Seq<NamedSets>,
    roles: Seq<Seq<char>>,
) -> Result<Seq<RoleSets>, Seq<char>>
    decreases roles.len(),
{
    if roles.len() == 0 {
        Ok(Seq::empty())
    } else {
        match roles_compiled(path, preamble, cards, ranks, overrides, roles.drop_last()) {
            Err(e) => Err(e),
            Ok(done) => match role_compiled(path, preamble, cards, ranks, overrides, roles.last()) {
                Err(e) => Err(e),
                Ok(r) => Ok(done.push(r)),
            },
        }
    }
}

/// Once a role has failed, further roles do not mend it.
proof fn lemma_roles_fail(
    path: Seq<char>,
    preamble: Seq<char>,
    cards: Seq<RoleCard>,
    ranks: Seq<Option<AclSets>>,
    overrides: Seq<NamedSets>,
    roles: Seq<Seq<char>>,
    i: int,
)
    requires
        0 <= i <= roles.len(),
        roles_compiled(path, preamble, cards, ranks, overrides, roles.take(i)) is Err,
    ensures
        roles_compiled(path, preamble, cards, ranks, overrides, roles) == roles_compiled(
            path,
            preamble,
            cards,
            ranks,
            overrides,
            roles.take(i),
        ),
    decreases roles.len(),
{
    if i == roles.len() {
        assert(roles.take(i) =~= roles);
    } else {
        assert(roles.drop_last().take(i) =~= roles.take(i));
        lemma_roles_fail(path, preamble, cards, ranks, overrides, roles.drop_last(), i);
    }
}

/// The rank number and sets of role policies.
pub open spec fn role_sets(v: Seq<RolePolicy>) -> Seq<RoleSets> {
    v.map_values(
        |p: RolePolicy| RoleSets { name: p.name@, rank: p.rank.0 as nat, sets: p.policy.sets() },
    )
}

/// The role's directives are among those of its rank.
pub open spec fn within_rank(ranks: Seq<Option<AclSets>>, p: RolePolicy) -> bool {
    &&& ranks[p.rank.0 as int] is Some
    &&& p.policy.sets().own.subset_of(ranks[p.rank.0 as int]->0.own)
    &&& p.policy.sets().delegation.subset_of(ranks[p.rank.0 as int]->0.delegation)
}

/// Where nothing is listed beyond the narrower set, the wider one is among it.
proof fn lemma_nothing_widened(wide: NameSet, narrow: Set<Seq<char>>)
    requires
        wide.wf(),
        widened(wide.names(), narrow).len() == 0,
    ensures
        wide.names().subset_of(narrow),
{
    wide.lemma_listed();
    let keep = |x: Seq<char>| !narrow.contains(x);
    assert forall|x: Seq<char>| wide.names().contains(x) implies narrow.contains(x) by {
        if !narrow.contains(x) {
            let l = wide.listed();
            let i = choose|i: int| 0 <= i < l.len() && l[i] == x;
            l.lemma_filter_contains(keep, i);
        }
    }
}

/// The message for an override that widens its rank.
fn widening_message(
    config_path: &str,
    role: &str,
    rank: &str,
    envelope: &str,
    beyond: &Vec<String>,
) -> (r: String)
    ensures
        r@ == "dispatch config "@ + config_path@ + " rank_acl.role_overrides."@ + role@
            + " widens rank "@ + rank@ + envelope@ + join(views(beyond@), ", "@),
{
    let mut m = cat7(
        "dispatch config ",
        config_path,
        " rank_acl.role_overrides.",
        role,
        " widens rank ",
        rank,
        envelope,
    );
    m.append(str_join(beyond, ", ").as_str());
    m
}

/// Compiles the policy of one role.
fn compile_role(
    config_path: &str,
    prompt_envelopes: &DispatchPromptEnvelopeConfig,
    cards: &Vec<RoleCard>,
    ranks: &RankTable,
    overrides: &Vec<RoleOverride>,
    role: &str,
) -> (r: Result<RolePolicy, String>)
    requires
        ranks.wf(),
        overrides_wf(overrides@),
    ensures
        match role_compiled(
            config_path@,
            prompt_envelopes.preamble_file@,
            cards@,
            ranks@,
            override_sets(overrides@),
            role@,
        ) {
            Ok(s) => r matches Ok(p) && p.policy.wf() && p.name@ == s.name && p.rank.0 == s.rank
                && p.policy.sets() == s.sets,
            Err(m) => r matches Err(e) && e@ == m,
        },
        r matches Ok(p) ==> within_rank(ranks@, p),
{
    let rank = match read_role_card_rank(config_path, prompt_envelopes, role, cards) {
        Ok(rank) => rank,
        Err(e) => {
            return Err(e);
        },
    };
    proof {
        assert(ranks@[rank.0 as int] == (match ranks.slots@[rank.0 as int] {
            Some(p) => Some(p.sets()),
            None => None,
        }));
    }
    let base = match &ranks.slots[rank.0 as usize] {
        Some(p) => p,
        None => {
            return Err(
                cat7(
                    "dispatch config ",
                    config_path,
                    " rank_acl is missing directives for rank ",
                    rank.text().as_str(),
                    " (role '",
                    role,
                    "')",
                ),
            );
        },
    };
    match find_override(overrides, role) {
        None => Ok(RolePolicy { name: role.to_owned(), rank, policy: base.copied() }),
        Some(i) => {
            let own = &overrides[i].policy;
            proof {
                assert(override_sets(overrides@)[i as int].sets == own.sets());
                own.own_directives.lemma_listed();
                own.delegation_directives.lemma_listed();
            }
            let wide_own = own.own_directives.without(&base.own_directives);
            proof {
                assert(views(wide_own@) =~= widened(own.sets().own, base.sets().own));
            }
            if wide_own.len() > 0 {
                return Err(
                    widening_message(
                        config_path,
                        role,
                        rank.text().as_str(),
                        " own_directives envelope with directives: ",
                        &wide_own,
                    ),
                );
            }
            let wide_delegation = own.delegation_directives.without(&base.delegation_directives);
            proof {
                assert(views(wide_delegation@) =~= widened(
                    own.sets().delegation,
                    base.sets().delegation,
                ));
            }
            if wide_delegation.len() > 0 {
                return Err(
                    widening_message(
                        config_path,
                        role,
                        rank.text().as_str(),
                        " delegation_directives envelope with directives: ",
                        &wide_delegation,
                    ),
                );
            }
            proof {
                lemma_nothing_widened(own.own_directives, base.sets().own);
                lemma_nothing_widened(own.delegation_directives, base.sets().delegation);
            }
            Ok(RolePolicy { name: role.to_owned(), rank, policy: own.copied() })
        },
    }
}

/// The actors of the config, trimmed and in lower case, without empty ones.
pub open spec fn actor_names(actors: Seq<Seq<char>>) -> Set<Seq<char>> {
    Set::new(
        |x: Seq<char>|
            x.len() > 0 && exists|i: int|
                0 <= i < actors.len() && norm(#[trigger] actors[i]) == x,
    )
}

/// The roles that need a policy: the configured ones, the allowed actors and those overridden.
pub open spec fn policy_role_names(
    roles: Seq<Seq<char>>,
    actors: Seq<Seq<char>>,
    overrides: Seq<NamedSets>,
) -> Set<Seq<char>> {
    roles.to_set().union(actor_names(actors)).union(override_keys(overrides).to_set())
}

/// Collects the roles that need a policy.
fn policy_roles(roles: &Vec<String>, actors: &Vec<String>, overrides: &Vec<RoleOverride>) -> (r:
    NameSet)
    ensures
        r.wf(),
        r.names() == policy_role_names(views(roles@), views(actors@), override_sets(overrides@)),
{
    let mut out = NameSet::new();
    let mut i: usize = 0;
    while i < roles.len()
        invariant
            i <= roles@.len(),
            out.wf(),
            forall|x: Seq<char>|
                #[trigger] out.names().contains(x) <==>
                    exists|k: int| 0 <= k < i && (#[trigger] roles@[k])@ == x,
        decreases roles.len() - i,
    {
        let ghost before = out.names();
        out.add(roles[i].clone());
        proof {
            assert forall|x: Seq<char>|
                #[trigger] out.names().contains(x) <==>
                    exists|k: int| 0 <= k < i + 1 && (#[trigger] roles@[k])@ == x by {
                assert(roles@[i as int]@ == roles@[i as int]@);
                if before.contains(x) {
                    let k = choose|k: int| 0 <= k < i && (#[trigger] roles@[k])@ == x;
                    assert(0 <= k < i + 1 && roles@[k]@ == x);
                }
                if exists|k: int| 0 <= k < i + 1 && (#[trigger] roles@[k])@ == x {
                    let k = choose|k: int| 0 <= k < i + 1 && (#[trigger] roles@[k])@ == x;
                    if k < i {
                        assert(before.contains(x));
                    }
                }
            }
        }
        i = i + 1;
    }
    proof {
        assert forall|x: Seq<char>|
            #[trigger] out.names().contains(x) <==> views(roles@).to_set().contains(x) by {
            if out.names().contains(x) {
                let k = choose|k: int| 0 <= k < roles@.len() && (#[trigger] roles@[k])@ == x;
                assert(views(roles@)[k] == x);
            }
            if views(roles@).to_set().contains(x) {
                let k = choose|k: int| 0 <= k < views(roles@).len() && views(roles@)[k] == x;
                assert(roles@[k]@ == x);
            }
        }
        assert(out.names() =~= views(roles@).to_set());
    }
    let ghost base = out.names();
    let mut j: usize = 0;
    while j < actors.len()
        invariant
            j <= actors@.len(),
            out.wf(),
            forall|x: Seq<char>|
                #[trigger] out.names().contains(x) <==>
                    base.contains(x) ||
                    (x.len() > 0 && exists|k: int| 0 <= k < j && norm((#[trigger] actors@[k])@) == x),
        decreases actors.len() - j,
    {
        let ghost before = out.names();
        let a = str_norm(actors[j].as_str());
        let ghost an = a@;
        if !a.as_str().is_empty() {
            out.add(a);
        }
        proof {
            assert forall|x: Seq<char>|
                #[trigger] out.names().contains(x) <==>
                    base.contains(x) ||
                    (x.len() > 0 && exists|k: int| 0 <= k < j + 1 && norm((#[trigger] actors@[k])@) == x) by {
                assert(norm(actors@[j as int]@) == an);
                if before.contains(x) && !base.contains(x) {
                    let k = choose|k: int| 0 <= k < j && norm((#[trigger] actors@[k])@) == x;
                    assert(0 <= k < j + 1 && norm(actors@[k]@) == x);
                }
                if x.len() > 0 && exists|k: int| 0 <= k < j + 1 && norm((#[trigger] actors@[k])@) == x {
                    let k = choose|k: int| 0 <= k < j + 1 && norm((#[trigger] actors@[k])@) == x;
                    if k < j {
                        assert(before.contains(x));
                    }
                }
            }
        }
        j = j + 1;
    }
    proof {
        assert forall|x: Seq<char>|
            #[trigger] out.names().contains(x) <==>
                base.union(actor_names(views(actors@))).contains(x) by {
            if x.len() > 0 && exists|k: int| 0 <= k < actors@.len() && norm((#[trigger] actors@[k])@) == x {
                let k = choose|k: int| 0 <= k < actors@.len() && norm((#[trigger] actors@[k])@) == x;
                assert(views(actors@)[k] == actors@[k]@);
            }
            if actor_names(views(actors@)).contains(x) {
                let k = choose|k: int|
                    0 <= k < views(actors@).len() && norm(#[trigger] views(actors@)[k]) == x;
                assert(views(actors@)[k] == actors@[k]@);
            }
        }
        assert(out.names() =~= base.union(actor_names(views(actors@))));
    }
    let ghost upper_base = out.names();
    let ghost keys = override_keys(override_sets(overrides@));
    let mut m: usize = 0;
    while m < overrides.len()
        invariant
            m <= overrides@.len(),
            out.wf(),
            keys == override_keys(override_sets(overrides@)),
            forall|x: Seq<char>|
                #[trigger] out.names().contains(x) <==>
                    upper_base.contains(x) || exists|k: int| 0 <= k < m && #[trigger] keys[k] == x,
        decreases overrides.len() - m,
    {
        let ghost before = out.names();
        out.add(overrides[m].name.clone());
        proof {
            assert(keys[m as int] == overrides@[m as int].name@);
            assert forall|x: Seq<char>|
                #[trigger] out.names().contains(x) <==>
                    upper_base.contains(x) ||
                    exists|k: int| 0 <= k < m + 1 && #[trigger] keys[k] == x by {
                if before.contains(x) && !upper_base.contains(x) {
                    let k = choose|k: int| 0 <= k < m && #[trigger] keys[k] == x;
                    assert(0 <= k < m + 1 && keys[k] == x);
                }
                if exists|k: int| 0 <= k < m + 1 && #[trigger] keys[k] == x {
                    let k = choose|k: int| 0 <= k < m + 1 && #[trigger] keys[k] == x;
                    if k < m {
                        assert(before.contains(x));
                    }
                }
            }
        }
        m = m + 1;
    }
    proof {
        assert(out.names() =~= upper_base.union(keys.to_set()));
    }
    out
}


/// What the config's rank ACL compiles to.
pub struct CompiledAcl {
    pub enabled: bool,
    pub ranks: Seq<Option<AclSets>>,
    pub roles: Seq<RoleSets>,
}

/// The rank ACL that a config compiles to, or what is wrong with it.
pub open spec fn acl_compiled(
    path: Seq<char>,
    raw: RankAclFile,
    preamble: Seq<char>,
    roles: Seq<Seq<char>>,
    actors: Seq<Seq<char>>,
    cards: Seq<RoleCard>,
) -> Result<CompiledAcl, Seq<char>> {
    if !raw.enabled {
        Ok(CompiledAcl { enabled: false, ranks: no_ranks(), roles: Seq::empty() })
    } else {
        match ranks_compiled(path, raw.ranks@) {
            Err(e) => Err(e),
            Ok(ranks) => match overrides_compiled(path, raw.role_overrides@) {
                Err(e) => Err(e),
                Ok(overrides) => match roles_compiled(
                    path,
                    preamble,
                    cards,
                    ranks,
                    overrides,
                    in_order(policy_role_names(roles, actors, overrides)),
                ) {
                    Err(e) => Err(e),
                    Ok(done) => Ok(CompiledAcl { enabled: true, ranks, roles: done }),
                },
            },
        }
    }
}

/// Compiles the rank ACL of a config: the default ranks with those of the config in their place, and
/// for every configured role, allowed actor and overridden role the policy of the rank on its card,
/// narrowed by its override.
pub fn compile_rank_acl_config(
    config_path: &str,
    raw: &RankAclFile,
    prompt_envelopes: &DispatchPromptEnvelopeConfig,
    roles: &Vec<String>,
    allowed_actors: &Vec<String>,
    cards: &Vec<RoleCard>,
) -> (r: Result<DispatchRankAclConfig, String>)
    ensures
        match acl_compiled(
            config_path@,
            *raw,
            prompt_envelopes.preamble_file@,
            views(roles@),
            views(allowed_actors@),
            cards@,
        ) {
            Ok(c) => r matches Ok(acl) && acl.wf() && acl.enabled == c.enabled
                && acl.rank_policies@ == c.ranks && role_sets(acl.role_policies@) == c.roles,
            Err(m) => r matches Err(e) && e@ == m,
        },
        r matches Ok(acl) ==> forall|i: int|
            0 <= i < acl.role_policies@.len() ==>
                within_rank(acl.rank_policies@, #[trigger] acl.role_policies@[i]),
        r matches Ok(acl) ==> (acl.enabled ==> forall|i: int|
            0 <= i < roles@.len() ==> acl.has((#[trigger] roles@[i])@)),
{
    if !raw.enabled {
        let acl = DispatchRankAclConfig {
            enabled: false,
            rank_policies: RankTable::new(),
            role_policies: Vec::new(),
        };
        proof {
            assert(role_sets(acl.role_policies@) =~= Seq::<RoleSets>::empty());
            assert(role_keys(acl.role_policies@) =~= Seq::<Seq<char>>::empty());
        }
        return Ok(acl);
    }
    let ranks = match compile_ranks(config_path, &raw.ranks) {
        Ok(t) => t,
        Err(e) => {
            return Err(e);
        },
    };
    let overrides = match compile_overrides(config_path, &raw.role_overrides) {
        Ok(v) => v,
        Err(e) => {
            return Err(e);
        },
    };
    let names = policy_roles(roles, allowed_actors, &overrides);
    let ghost order = names.listed();
    let ghost sets = override_sets(overrides@);
    let ghost preamble = prompt_envelopes.preamble_file@;
    proof {
        names.lemma_listed();
        assert(order.take(0) =~= Seq::<Seq<char>>::empty());
    }
    let mut out: Vec<RolePolicy> = Vec::new();
    proof {
        assert(role_sets(out@) =~= Seq::<RoleSets>::empty());
        assert(role_keys(out@) =~= order.take(0));
    }
    let mut i: usize = 0;
    while i < names.items.len()
        invariant
            i <= names.items@.len(),
            ranks.wf(),
            overrides_wf(overrides@),
            names.wf(),
            order == names.listed(),
            sets == override_sets(overrides@),
            preamble == prompt_envelopes.preamble_file@,
            raw.enabled,
            ranks_compiled(config_path@, raw.ranks@) == Ok::<Seq<Option<AclSets>>, Seq<char>>(ranks@),
            overrides_compiled(config_path@, raw.role_overrides@) == Ok::<Seq<NamedSets>, Seq<char>>(sets),
            order == in_order(policy_role_names(views(roles@), views(allowed_actors@), sets)),
            role_keys(out@) == order.take(i as int),
            forall|k: int|
                0 <= k < out@.len() ==>
                    (#[trigger] out@[k]).policy.wf() && within_rank(ranks@, out@[k]),
            roles_compiled(config_path@, preamble, cards@, ranks@, sets, order.take(i as int)) == Ok::<
                Seq<RoleSets>,
                Seq<char>,
            >(role_sets(out@)),
        decreases names.items.len() - i,
    {
        let ghost before = role_sets(out@);
        let ghost before_keys = role_keys(out@);
        proof {
            assert(order.take(i + 1).drop_last() =~= order.take(i as int));
            assert(order.take(i + 1).last() == names.items@[i as int]@);
            if roles_compiled(config_path@, preamble, cards@, ranks@, sets, order.take(i + 1)) is Err {
                lemma_roles_fail(config_path@, preamble, cards@, ranks@, sets, order, i + 1);
            }
        }
        match compile_role(
            config_path,
            prompt_envelopes,
            cards,
            &ranks,
            &overrides,
            names.items[i].as_str(),
        ) {
            Ok(p) => {
                let ghost added = RoleSets { name: p.name@, rank: p.rank.0 as nat, sets: p.policy.sets() };
                out.push(p);
                proof {
                    assert(role_sets(out@) =~= before.push(added));
                    assert(role_keys(out@) =~= before_keys.push(added.name));
                    assert(order.take(i as int).push(order[i as int]) =~= order.take(i + 1));
                }
            },
            Err(e) => {
                return Err(e);
            },
        }
        i = i + 1;
    }
    let acl = DispatchRankAclConfig { enabled: true, rank_policies: ranks, role_policies: out };
    proof {
        assert(order.take(order.len() as int) =~= order);
        assert forall|k: int| 0 <= k < roles@.len() implies acl.has((#[trigger] roles@[k])@) by {
            assert(views(roles@)[k] == roles@[k]@);
            assert(views(roles@).to_set().contains(roles@[k]@));
            assert(names.names().contains(roles@[k]@));
            assert(order.contains(roles@[k]@));
            lemma_first_at(role_keys(acl.role_policies@), roles@[k]@);
        }
    }
    Ok(acl)
}

/// A directive other than `reply` travels only from a superior to a strictly lower rank.
pub proof fn law_other_directives_travel_downrank(
    acl: DispatchRankAclConfig,
    actor: Seq<char>,
    target: Seq<char>,
    directive: Seq<char>,
)
    requires
        acl.enabled,
        acl.dispatch_denial(actor, target, directive) is None,
        norm(directive) != "reply"@,
    ensures
        acl.of(norm(actor)).rank.0 > acl.of(norm(target)).rank.0,
{
}

/// Between equal ranks nothing travels but a reply to oneself.
pub proof fn law_equal_ranks_only_reply_to_self(
    acl: DispatchRankAclConfig,
    actor: Seq<char>,
    target: Seq<char>,
    directive: Seq<char>,
)
    requires
        acl.enabled,
        acl.dispatch_denial(actor, target, directive) is None,
        acl.of(norm(actor)).rank.0 == acl.of(norm(target)).rank.0,
    ensures
        norm(actor) == norm(target),
        norm(directive) == "reply"@,
{
}

/// What may be dispatched onto a role, the role may execute.
pub proof fn law_dispatchable_is_executable(
    acl: DispatchRankAclConfig,
    actor: Seq<char>,
    target: Seq<char>,
    directive: Seq<char>,
)
    requires
        acl.dispatch_denial(actor, target, directive) is None,
    ensures
        acl.execute_denial(target, directive) is None,
{
}

/// A disabled ACL denies nothing.
pub proof fn law_disabled_acl_denies_nothing(
    acl: DispatchRankAclConfig,
    actor: Seq<char>,
    target: Seq<char>,
    directive: Seq<char>,
)
    requires
        !acl.enabled,
    ensures
        acl.dispatch_denial(actor, target, directive) is None,
        acl.execute_denial(target, directive) is None,
{
}

/// Nothing is listed beyond the narrower set exactly where the wider one is among it.
proof fn lemma_widened_exactly(wide: Set<Seq<char>>, narrow: Set<Seq<char>>, l: Seq<Seq<char>>)
    requires
        crate::names::ascending(l),
        l.to_set() == wide,
    ensures
        widened(wide, narrow).len() == 0 <==> wide.subset_of(narrow),
{
    let o = in_order(wide);
    assert(crate::names::ascending(o) && o.to_set() == wide);
    let keep = |x: Seq<char>| !narrow.contains(x);
    let w = o.filter(keep);
    if w.len() == 0 {
        assert forall|x: Seq<char>| wide.contains(x) implies narrow.contains(x) by {
            if !narrow.contains(x) {
                assert(o.to_set().contains(x));
                let i = choose|i: int| 0 <= i < o.len() && o[i] == x;
                o.lemma_filter_contains(keep, i);
            }
        }
    }
    if wide.subset_of(narrow) && w.len() > 0 {
        o.lemma_filter_pred(keep, 0);
        o.lemma_filter_contains_rev(keep, w[0]);
        assert(o.to_set().contains(w[0]));
    }
}

/// A role gets the directives of the rank on its card, or those of its override where it has one; an
/// override that goes beyond the rank is refused, and so is a rank without directives. `l` and `d` list the
/// directives of the override.
pub proof fn law_roles_get_what_their_rank_has(
    path: Seq<char>,
    preamble: Seq<char>,
    cards: Seq<RoleCard>,
    ranks: Seq<Option<AclSets>>,
    overrides: Seq<NamedSets>,
    role: Seq<char>,
    n: nat,
    oi: int,
    l: Seq<Seq<char>>,
    d: Seq<Seq<char>>,
)
    requires
        card_verdict(path, preamble, role, card_of(cards, role)) == Ok::<nat, Seq<char>>(n),
        0 <= oi <= overrides.len(),
        oi < overrides.len() ==> overrides[oi].name == role,
        forall|k: int| 0 <= k < oi ==> (#[trigger] overrides[k]).name != role,
        oi < overrides.len() ==> crate::names::ascending(l) && l.to_set() == overrides[oi].sets.own
            && crate::names::ascending(d) && d.to_set() == overrides[oi].sets.delegation,
    ensures
        ({
            let r = role_compiled(path, preamble, cards, ranks, overrides, role);
            &&& ranks[n as int] is None ==> r is Err
            &&& ranks[n as int] matches Some(base) ==> {
                &&& oi == overrides.len() ==> r == Ok::<RoleSets, Seq<char>>(
                    RoleSets { name: role, rank: n, sets: base },
                )
                &&& oi < overrides.len() ==> (r is Ok <==> overrides[oi].sets.own.subset_of(base.own)
                    && overrides[oi].sets.delegation.subset_of(base.delegation))
                &&& oi < overrides.len() && r is Ok ==> r == Ok::<RoleSets, Seq<char>>(
                    RoleSets { name: role, rank: n, sets: overrides[oi].sets },
                )
            }
        }),
{
    lemma_first_at_is(override_keys(overrides), role, oi);
    if oi < overrides.len() && ranks[n as int] is Some {
        let base = ranks[n as int]->0;
        lemma_widened_exactly(overrides[oi].sets.own, base.own, l);
        lemma_widened_exactly(overrides[oi].sets.delegation, base.delegation, d);
    }
}

/// The rank of a role is the one that its card gives; without a card, with one that cannot be read or that
/// gives none, there is no rank.
pub proof fn law_cards_give_the_rank(
    path: Seq<char>,
    preamble: Seq<char>,
    cards: Seq<RoleCard>,
    role: Seq<char>,
    k: int,
)
    requires
        0 <= k <= cards.len(),
        k < cards.len() ==> cards[k].role@ == role,
        forall|j: int| 0 <= j < k ==> (#[trigger] cards[j]).role@ != role,
    ensures
        k == cards.len() ==> card_verdict(path, preamble, role, card_of(cards, role)) is Err,
        k < cards.len() ==> match cards[k].file {
            CardFile::Text(t) => match card_rank(lines(t@)) {
                Some(n) => card_verdict(path, preamble, role, card_of(cards, role)) == Ok::<
                    nat,
                    Seq<char>,
                >(n),
                None => card_verdict(path, preamble, role, card_of(cards, role)) is Err,
            },
            _ => card_verdict(path, preamble, role, card_of(cards, role)) is Err,
        },
{
    lemma_first_at_is(card_keys(cards), role, k);
}

/// A policy of the config takes the place of what its rank has by default, the last one for a rank counts,
/// and ranks that the config does not speak of keep theirs.
pub proof fn law_configured_ranks_replace_the_defaults(
    path: Seq<char>,
    entries: Seq<PolicyEntry>,
    n: nat,
    k: int,
)
    requires
        n < 256,
        -1 <= k < entries.len(),
        k >= 0 ==> rank_number(entries[k].key@) == Some(n),
        forall|j: int|
            k < j < entries.len() ==> rank_number((#[trigger] entries[j]).key@) != Some(n),
        ranks_compiled(path, entries) is Ok,
    ensures
        ranks_compiled(path, entries)->Ok_0.len() == 256,
        k < 0 ==> ranks_compiled(path, entries)->Ok_0[n as int] == default_ranks()[n as int],
        k >= 0 ==> (ranks_compiled(path, entries)->Ok_0[n as int] matches Some(sets) && policy_sets(
            path,
            "rank_acl.ranks."@ + rank_text(DispatchRank(n as u8)),
            entries[k].policy,
        ) == Ok::<AclSets, Seq<char>>(sets)),
    decreases entries.len(),
{
    if entries.len() > 0 {
        let t = entries.drop_last();
        let last = entries.last();
        assert(entries[entries.len() - 1] == last);
        assert forall|j: int| 0 <= j < t.len() implies #[trigger] t[j] == entries[j] by {}
        if k < t.len() {
            law_configured_ranks_replace_the_defaults(path, t, n, k);
            assert(rank_number(last.key@) != Some(n));
        } else {
            lemma_ranks_len(path, t);
        }
    }
}

/// There is a place for every rank.
proof fn lemma_ranks_len(path: Seq<char>, entries: Seq<PolicyEntry>)
    ensures
        ranks_compiled(path, entries) matches Ok(t) ==> t.len() == 256,
    decreases entries.len(),
{
    if entries.len() > 0 {
        lemma_ranks_len(path, entries.drop_last());
    }
}

/// A policy is needed for every configured role, every allowed actor and every role that is overridden, and
/// for no one else.
pub proof fn law_policies_are_for_roles_and_actors(
    roles: Seq<Seq<char>>,
    actors: Seq<Seq<char>>,
    overrides: Seq<NamedSets>,
    x: Seq<char>,
)
    ensures
        policy_role_names(roles, actors, overrides).contains(x) <==> roles.contains(x) || (x.len() > 0
            && exists|i: int| 0 <= i < actors.len() && norm(#[trigger] actors[i]) == x) || exists|i: int|
            0 <= i < overrides.len() && (#[trigger] overrides[i]).name == x,
{
    let keys = override_keys(overrides);
    if keys.contains(x) {
        let i = choose|i: int| 0 <= i < keys.len() && keys[i] == x;
        assert(overrides[i].name == x);
    }
    if exists|i: int| 0 <= i < overrides.len() && (#[trigger] overrides[i]).name == x {
        let i = choose|i: int| 0 <= i < overrides.len() && (#[trigger] overrides[i]).name == x;
        assert(keys[i] == x);
    }
}

/// Each role is compiled, in their order.
pub proof fn law_each_role_is_compiled(
    path: Seq<char>,
    preamble: Seq<char>,
    cards: Seq<RoleCard>,
    ranks: Seq<Option<AclSets>>,
    overrides: Seq<NamedSets>,
    roles: Seq<Seq<char>>,
    k: int,
)
    ensures
        roles_compiled(path, preamble, cards, ranks, overrides, roles) matches Ok(done) ==> done.len()
            == roles.len() && (0 <= k < roles.len() ==> role_compiled(
            path,
            preamble,
            cards,
            ranks,
            overrides,
            roles[k],
        ) == Ok::<RoleSets, Seq<char>>(done[k])),
        0 <= k < roles.len() && role_compiled(path, preamble, cards, ranks, overrides, roles[k]) is Err
            ==> roles_compiled(path, preamble, cards, ranks, overrides, roles) is Err,
    decreases roles.len(),
{
    if roles.len() > 0 {
        let p = roles.drop_last();
        law_each_role_is_compiled(path, preamble, cards, ranks, overrides, p, k);
        if 0 <= k < p.len() {
            assert(p[k] == roles[k]);
        }
        assert(roles[roles.len() - 1] == roles.last());
    }
}

/// An override is of the role of its key in lower case, has the directives of its policy, and is the only
/// one of its role.
pub proof fn law_overrides_are_of_their_roles(path: Seq<char>, entries: Seq<PolicyEntry>, k: int)
    ensures
        overrides_compiled(path, entries) matches Ok(found) ==> {
            &&& found.len() == entries.len()
            &&& 0 <= k < entries.len() ==> found[k].name == norm(entries[k].key@) && found[k].name.len()
                > 0 && policy_sets(
                path,
                "rank_acl.role_overrides."@ + found[k].name,
                entries[k].policy,
            ) == Ok::<AclSets, Seq<char>>(found[k].sets)
            &&& forall|i: int, j: int|
                0 <= i < j < found.len() ==> (#[trigger] found[i]).name != (#[trigger] found[j]).name
        },
    decreases entries.len(),
{
    if entries.len() > 0 {
        let p = entries.drop_last();
        law_overrides_are_of_their_roles(path, p, k);
        if 0 <= k < p.len() {
            assert(p[k] == entries[k]);
        }
        assert(entries[entries.len() - 1] == entries.last());
        if overrides_compiled(path, entries) is Ok {
            let f = overrides_compiled(path, p)->Ok_0;
            let found = overrides_compiled(path, entries)->Ok_0;
            assert forall|i: int, j: int| 0 <= i < j < found.len() implies (#[trigger] found[i]).name != (
            #[trigger] found[j]).name by {
                assert(found[i] == f[i]);
                assert(override_keys(f)[i] == f[i].name);
                if j < f.len() {
                    assert(found[j] == f[j]);
                }
            }
        }
    }
}

/// A policy that is switched off has no ranks and no roles; one that is on has those of its ranks and a
/// role for each that needs one, in the order of their names, which `l` lists.
pub proof fn law_policies_are_compiled_for_all_who_need_one(
    path: Seq<char>,
    raw: RankAclFile,
    preamble: Seq<char>,
    roles: Seq<Seq<char>>,
    actors: Seq<Seq<char>>,
    cards: Seq<RoleCard>,
    overrides: Seq<NamedSets>,
    l: Seq<Seq<char>>,
    k: int,
)
    requires
        overrides_compiled(path, raw.role_overrides@) == Ok::<Seq<NamedSets>, Seq<char>>(overrides),
        crate::names::ascending(l),
        l.to_set() == policy_role_names(roles, actors, overrides),
    ensures
        !raw.enabled ==> (acl_compiled(path, raw, preamble, roles, actors, cards) matches Ok(c)
            && !c.enabled && c.roles.len() == 0 && c.ranks.len() == 256 && forall|i: int|
            0 <= i < 256 ==> #[trigger] c.ranks[i] is None),
        raw.enabled ==> (acl_compiled(path, raw, preamble, roles, actors, cards) matches Ok(c) ==> {
            &&& c.enabled
            &&& ranks_compiled(path, raw.ranks@) == Ok::<Seq<Option<AclSets>>, Seq<char>>(c.ranks)
            &&& c.roles.len() == l.len()
            &&& 0 <= k < l.len() ==> role_compiled(path, preamble, cards, c.ranks, overrides, l[k])
                == Ok::<RoleSets, Seq<char>>(c.roles[k])
        }),
{
    let names = policy_role_names(roles, actors, overrides);
    let o = in_order(names);
    assert(crate::names::ascending(o) && o.to_set() == names);
    crate::names::lemma_listing_unique(o, l);
    if raw.enabled {
        if let Ok(ranks) = ranks_compiled(path, raw.ranks@) {
            law_each_role_is_compiled(path, preamble, cards, ranks, overrides, l, k);
        }
    }
}

/// A role that is within its rank has a rank with directives, and none beyond them.
pub proof fn law_roles_within_their_rank_have_one(ranks: Seq<Option<AclSets>>, p: RolePolicy)
    requires
        within_rank(ranks, p),
    ensures
        ranks[p.rank.0 as int] matches Some(base) && p.policy.sets().own.subset_of(base.own)
            && p.policy.sets().delegation.subset_of(base.delegation),
{
}

/// A role has the first card of its name, and none where there is none of it.
pub proof fn law_roles_have_the_first_card_of_their_name(cards: Seq<RoleCard>, role: Seq<char>, k: int)
    requires
        0 <= k <= cards.len(),
        k < cards.len() ==> cards[k].role@ == role,
        forall|j: int| 0 <= j < k ==> (#[trigger] cards[j]).role@ != role,
    ensures
        k < cards.len() ==> card_of(cards, role) == cards[k].file,
        k == cards.len() ==> card_of(cards, role) == CardFile::Absent,
{
    lemma_first_at_is(card_keys(cards), role, k);
}

} // verus!
