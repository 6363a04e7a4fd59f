//! Officer ranks and the delegation rules built on them.

use crate::lexicon::{
    directive_is_known, known_directive, DIRECTIVE_AUDIT, DIRECTIVE_DESIGN, DIRECTIVE_IMPL,
    DIRECTIVE_INVESTIGATE, DIRECTIVE_REPLY,
};
use crate::names::{in_order, NameSet};
use crate::text::{
    after_prefix, cat2, cat3, cat5, cat6, cat7, decimal, first_at, has_key, join,
    lemma_first_at_is, lines, norm, parse_unsigned, str_eq, str_join, str_lines, str_norm,
    str_strip_prefix, str_trim, str_trim_back_of, str_trim_front_of, str_trim_start, str_upper,
    str_words, trim, trim_back_of, trim_front_of, trim_start, u64_text, unsigned_value, upper,
    views, words,
};
use vstd::prelude::*;
use vstd::string::*;

verus! {

/// An officer rank, `OF-<n>`; the higher number is the superior.
#[derive(Clone, Copy, PartialEq, Eq, Structural)]
pub struct DispatchRank(pub u8);

/// A rank token in upper case, without punctuation around it.
pub open spec fn rank_token(raw: Seq<char>) -> Seq<char> {
    upper(trim_back_of(trim_front_of(trim(raw), ",;:."@), ",;:."@))
}

/// The rank number that a token names, with nothing where it lacks the prefix or the digits.
pub open spec fn rank_number(raw: Seq<char>) -> Option<nat> {
    match after_prefix(rank_token(raw), "OF-"@) {
        Some(digits) => unsigned_value(digits, 255),
        None => None,
    }
}

/// The text of a rank.
pub open spec fn rank_text(rank: DispatchRank) -> Seq<char> {
    "OF-"@ + decimal(rank.0 as nat)
}

/// A rank token in upper case, without punctuation around it.
pub fn rank_token_of(raw: &str) -> (r: String)
    ensures
        r@ == rank_token(raw@),
{
    str_upper(str_trim_back_of(str_trim_front_of(str_trim(raw), ",;:."), ",;:."))
}

impl DispatchRank {
    /// Reads a rank of the form `OF-<n>`, in any ASCII case and with punctuation around it.
    pub fn parse(raw: &str) -> (r: Result<DispatchRank, String>)
        ensures
            match rank_number(raw@) {
                Some(n) => r matches Ok(rank) && rank.0 == n,
                None => r matches Err(e) && e@ == (if after_prefix(
                    rank_token(raw@),
                    "OF-"@,
                ) is None {
                    "expected officer rank in format OF-<n>, got '"@ + raw@ + "'"@
                } else {
                    "invalid officer rank digits in '"@ + raw@ + "'"@
                }),
            },
    {
        let token = rank_token_of(raw);
        match str_strip_prefix(token.as_str(), "OF-") {
            None => Err(cat3("expected officer rank in format OF-<n>, got '", raw, "'")),
            Some(digits) => match parse_unsigned(digits, 255) {
                Some(n) => Ok(DispatchRank(n as u8)),
                None => Err(cat3("invalid officer rank digits in '", raw, "'")),
            },
        }
    }

    /// The rank in the form `OF-<n>`.
    pub fn text(&self) -> (r: String)
        ensures
            r@ == rank_text(*self),
    {
        cat2("OF-", u64_text(self.0 as u64).as_str())
    }
}

/// What follows the bullet of a trimmed line, without leading white space.
pub open spec fn bullet_text(line: Seq<char>) -> Option<Seq<char>> {
    match after_prefix(trim(line), "-"@) {
        Some(rest) => Some(trim_start(rest)),
        None => match after_prefix(trim(line), "*"@) {
            Some(rest) => Some(trim_start(rest)),
            None => None,
        },
    }
}

/// The first word behind the bullet of a line.
pub open spec fn bullet_word(line: Seq<char>) -> Option<Seq<char>> {
    match bullet_text(line) {
        Some(rest) => if words(rest).len() > 0 {
            Some(words(rest)[0])
        } else {
            None
        },
        None => None,
    }
}

/// The first word behind the bullet of `line`.
pub fn bullet_word_of(line: &str) -> (r: Option<String>)
    ensures
        crate::text::opt_view(r) == bullet_word(line@),
{
    let t = str_trim(line);
    let rest = match str_strip_prefix(t, "-") {
        Some(rest) => rest,
        None => match str_strip_prefix(t, "*") {
            Some(rest) => rest,
            None => {
                return None;
            },
        },
    };
    let ws = str_words(str_trim_start(rest));
    if ws.len() > 0 {
        proof {
            assert(views(ws@)[0] == ws@[0]@);
        }
        Some(ws[0].clone())
    } else {
        None
    }
}

/// The rank that a line of a role card gives.
pub open spec fn line_rank(line: Seq<char>) -> Option<nat> {
    match bullet_word(line) {
        Some(w) => rank_number(w),
        None => None,
    }
}

/// The rank of a role card: that of the first line that gives one.
pub open spec fn card_rank(ls: Seq<Seq<char>>) -> Option<nat>
    decreases ls.len(),
{
    if ls.len() == 0 {
        None
    } else if line_rank(ls[0]) is Some {
        line_rank(ls[0])
    } else {
        card_rank(ls.drop_first())
    }
}

/// The rank that a role card gives in its first bullet that begins with one.
pub fn parse_role_card_rank(role_card_md: &str) -> (r: Option<DispatchRank>)
    ensures
        (match r { Some(rank) => Some(rank.0 as nat), None => None }) == card_rank(
            lines(role_card_md@),
        ),
{
    let ls = str_lines(role_card_md);
    let mut i: usize = 0;
    proof {
        assert(views(ls@).skip(0) =~= views(ls@));
    }
    while i < ls.len()
        invariant
            i <= ls@.len(),
            views(ls@) == lines(role_card_md@),
            card_rank(lines(role_card_md@)) == card_rank(views(ls@).skip(i as int)),
        decreases ls.len() - i,
    {
        proof {
            assert(views(ls@).skip(i as int)[0] == ls@[i as int]@);
            assert(views(ls@).skip(i as int).drop_first() =~= views(ls@).skip(i + 1));
        }
        if let Some(w) = bullet_word_of(ls[i].as_str()) {
            if let Ok(rank) = DispatchRank::parse(w.as_str()) {
                return Some(rank);
            }
        }
        i = i + 1;
    }
    None
}

/// The directives that a rank or role may execute and those that it may delegate.
pub struct AclPolicy {
    pub own_directives: NameSet,
    pub delegation_directives: NameSet,
}

/// The two directive sets of a policy.
pub struct AclSets {
    pub own: Set<Seq<char>>,
    pub delegation: Set<Seq<char>>,
}

impl AclPolicy {
    pub open spec fn wf(self) -> bool {
        self.own_directives.wf() && self.delegation_directives.wf()
    }

    pub open spec fn sets(self) -> AclSets {
        AclSets { own: self.own_directives.names(), delegation: self.delegation_directives.names() }
    }

    /// A copy of the policy.
    pub fn copied(&self) -> (r: Self)
        ensures
            r.sets() == self.sets(),
            self.wf() ==> r.wf(),
            r.own_directives.listed() == self.own_directives.listed(),
            r.delegation_directives.listed() == self.delegation_directives.listed(),
    {
        AclPolicy {
            own_directives: self.own_directives.copied(),
            delegation_directives: self.delegation_directives.copied(),
        }
    }
}

/// A policy whose two directive sets are the same.
pub fn acl_policy_with_shared_directives(directives: NameSet) -> (r: AclPolicy)
    requires
        directives.wf(),
    ensures
        r.wf(),
        r.sets() == (AclSets { own: directives.names(), delegation: directives.names() }),
{
    AclPolicy { own_directives: directives.copied(), delegation_directives: directives }
}

/// The policies of all ranks: one slot per rank number.
pub struct RankTable {
    pub slots: Vec<Option<AclPolicy>>,
}

impl RankTable {
    /// There is a slot for every rank number, and each policy is well-formed.
    pub open spec fn wf(self) -> bool {
        &&& self.slots@.len() == 256
        &&& forall|i: int| 0 <= i < 256 && (#[trigger] self.slots@[i]) is Some ==> self.slots@[i]->0.wf()
    }

    /// The directive sets by rank number.
    pub open spec fn view(self) -> Seq<Option<AclSets>> {
        self.slots@.map_values(
            |p: Option<AclPolicy>|
                match p {
                    Some(p) => Some(p.sets()),
                    None => None,
                },
        )
    }

    /// A table without policies.
    pub fn new() -> (r: Self)
        ensures
            r.wf(),
            r@ == no_ranks(),
    {
        let mut slots: Vec<Option<AclPolicy>> = Vec::new();
        let mut i: usize = 0;
        while i < 256
            invariant
                i <= 256,
                slots@.len() == i,
                forall|k: int| 0 <= k < i ==> (#[trigger] slots@[k]) is None,
            decreases 256 - i,
        {
            slots.push(None);
            i = i + 1;
        }
        let r = RankTable { slots };
        proof {
            assert(r@ =~= no_ranks());
        }
        r
    }

    /// Gives a rank its policy, in place of the one that it had.
    pub fn put(&mut self, rank: DispatchRank, policy: AclPolicy)
        requires
            old(self).wf(),
            policy.wf(),
        ensures
            final(self).wf(),
            final(self)@ == old(self)@.update(rank.0 as int, Some(policy.sets())),
    {
        let ghost before = self@;
        let ghost sets = policy.sets();
        let at: usize = rank.0 as usize;
        self.slots.set(at, Some(policy));
        proof {
            assert(self@ =~= before.update(rank.0 as int, Some(sets)));
        }
    }
}

/// A table in which no rank has a policy.
pub open spec fn no_ranks() -> Seq<Option<AclSets>> {
    Seq::new(256, |i: int| None)
}

/// The directives that ranks have unless the config says otherwise: the senior ranks.
pub open spec fn senior_directives() -> Set<Seq<char>> {
    set!["design"@, "investigate"@, "impl"@, "reply"@, "audit"@]
}

/// The same set for both directions.
pub open spec fn both(s: Set<Seq<char>>) -> Option<AclSets> {
    Some(AclSets { own: s, delegation: s })
}

/// The policies that ranks have unless the config says otherwise.
pub open spec fn default_ranks() -> Seq<Option<AclSets>> {
    no_ranks().update(10, both(senior_directives())).update(8, both(senior_directives())).update(
        6,
        both(senior_directives()),
    ).update(2, both(set!["impl"@, "reply"@]))
}

/// The directives of the senior ranks.
fn senior_set() -> (r: NameSet)
    ensures
        r.wf(),
        r.names() == senior_directives(),
{
    let mut s = NameSet::new();
    s.add(DIRECTIVE_DESIGN.to_owned());
    s.add(DIRECTIVE_INVESTIGATE.to_owned());
    s.add(DIRECTIVE_IMPL.to_owned());
    s.add(DIRECTIVE_REPLY.to_owned());
    s.add(DIRECTIVE_AUDIT.to_owned());
    proof {
        assert(s.names() =~= senior_directives());
    }
    s
}

/// The policies that ranks have unless the config says otherwise.
pub fn default_rank_directives() -> (r: RankTable)
    ensures
        r.wf(),
        r@ == default_ranks(),
{
    let mut t = RankTable::new();
    t.put(DispatchRank(10), acl_policy_with_shared_directives(senior_set()));
    t.put(DispatchRank(8), acl_policy_with_shared_directives(senior_set()));
    t.put(DispatchRank(6), acl_policy_with_shared_directives(senior_set()));
    let mut junior = NameSet::new();
    junior.add(DIRECTIVE_IMPL.to_owned());
    junior.add(DIRECTIVE_REPLY.to_owned());
    proof {
        assert(junior.names() =~= set!["impl"@, "reply"@]);
    }
    t.put(DispatchRank(2), acl_policy_with_shared_directives(junior));
    t
}

/// The directive sets of a list of directives as the config writes them, or what is wrong with the
/// first bad one.
pub open spec fn directive_set(
    path: Seq<char>,
    source: Seq<char>,
    raw: Seq<Seq<char>>,
) -> Result<Set<Seq<char>>, Seq<char>>
    decreases raw.len(),
{
    if raw.len() == 0 {
        Ok(Set::empty())
    } else {
        match directive_set(path, source, raw.drop_last()) {
            Err(e) => Err(e),
            Ok(s) => {
                let d = norm(raw.last());
                if d.len() == 0 {
                    Err("dispatch config "@ + path + " "@ + source + " includes empty directive"@)
                } else if !known_directive(d) {
                    Err(
                        "dispatch config "@ + path + " "@ + source
                            + " references unknown directive '"@ + d + "'"@,
                    )
                } else {
                    Ok(s.insert(d))
                }
            },
        }
    }
}

/// Once a list of directives has failed, more directives do not mend it.
proof fn lemma_directive_set_fails(
    path: Seq<char>,
    source: Seq<char>,
    raw: Seq<Seq<char>>,
    i: int,
)
    requires
        0 <= i <= raw.len(),
        directive_set(path, source, raw.take(i)) is Err,
    ensures
        directive_set(path, source, raw) == directive_set(path, source, raw.take(i)),
    decreases raw.len(),
{
    if i == raw.len() {
        assert(raw.take(i) =~= raw);
    } else {
        assert(raw.drop_last().take(i) =~= raw.take(i));
        lemma_directive_set_fails(path, source, raw.drop_last(), i);
    }
}

/// Reads a list of directives into a set: each trimmed, in lower case, nonempty and known.
pub fn parse_acl_directive_set(config_path: &str, source: &str, directives: &Vec<String>) -> (r:
    Result<NameSet, String>)
    ensures
        match directive_set(config_path@, source@, views(directives@)) {
            Ok(s) => r matches Ok(set) && set.wf() && set.names() == s,
            Err(m) => r matches Err(e) && e@ == m,
        },
{
    let mut out = NameSet::new();
    let mut i: usize = 0;
    let ghost all = views(directives@);
    proof {
        assert(all.take(0) =~= Seq::<Seq<char>>::empty());
    }
    while i < directives.len()
        invariant
            i <= directives@.len(),
            all == views(directives@),
            out.wf(),
            directive_set(config_path@, source@, all.take(i as int)) == Ok::<
                Set<Seq<char>>,
                Seq<char>,
            >(out.names()),
        decreases directives.len() - i,
    {
        let d = str_norm(directives[i].as_str());
        proof {
            assert(all.take(i + 1).drop_last() =~= all.take(i as int));
            assert(all.take(i + 1).last() == directives@[i as int]@);
            if directive_set(config_path@, source@, all.take(i + 1)) is Err {
                lemma_directive_set_fails(config_path@, source@, all, i + 1);
            }
        }
        if d.as_str().is_empty() {
            return Err(
                cat5("dispatch config ", config_path, " ", source, " includes empty directive"),
            );
        }
        if !directive_is_known(d.as_str()) {
            return Err(
                cat7(
                    "dispatch config ",
                    config_path,
                    " ",
                    source,
                    " references unknown directive '",
                    d.as_str(),
                    "'",
                ),
            );
        }
        out.add(d);
        i = i + 1;
    }
    proof {
        assert(all.take(all.len() as int) =~= all);
    }
    Ok(out)
}

/// A policy as the config writes it; both lists must be there.
pub struct AclPolicyFile {
    pub own_directives: Option<Vec<String>>,
    pub delegation_directives: Option<Vec<String>>,
}

/// The sets of a policy as the config writes it, or what is wrong with it.
pub open spec fn policy_sets(path: Seq<char>, source: Seq<char>, p: AclPolicyFile) -> Result<
    AclSets,
    Seq<char>,
> {
    if p.own_directives is None {
        Err(
            "dispatch config "@ + path + " "@ + source
                + " is missing required key 'own_directives'"@,
        )
    } else if p.delegation_directives is None {
        Err(
            "dispatch config "@ + path + " "@ + source
                + " is missing required key 'delegation_directives'"@,
        )
    } else {
        match directive_set(
            path,
            source + ".own_directives"@,
            views(p.own_directives->0@),
        ) {
            Err(e) => Err(e),
            Ok(own) => match directive_set(
                path,
                source + ".delegation_directives"@,
                views(p.delegation_directives->0@),
            ) {
                Err(e) => Err(e),
                Ok(delegation) => Ok(AclSets { own, delegation }),
            },
        }
    }
}

/// Compiles a policy as the config writes it.
pub fn compile_acl_directive_surfaces(
    config_path: &str,
    source_prefix: &str,
    policy: &AclPolicyFile,
) -> (r: Result<AclPolicy, String>)
    ensures
        match policy_sets(config_path@, source_prefix@, *policy) {
            Ok(s) => r matches Ok(p) && p.wf() && p.sets() == s,
            Err(m) => r matches Err(e) && e@ == m,
        },
{
    let own_raw = match &policy.own_directives {
        Some(v) => v,
        None => {
            return Err(
                cat5(
                    "dispatch config ",
                    config_path,
                    " ",
                    source_prefix,
                    " is missing required key 'own_directives'",
                ),
            );
        },
    };
    let delegation_raw = match &policy.delegation_directives {
        Some(v) => v,
        None => {
            return Err(
                cat5(
                    "dispatch config ",
                    config_path,
                    " ",
                    source_prefix,
                    " is missing required key 'delegation_directives'",
                ),
            );
        },
    };
    let own_source = cat2(source_prefix, ".own_directives");
    let delegation_source = cat2(source_prefix, ".delegation_directives");
    match parse_acl_directive_set(config_path, own_source.as_str(), own_raw) {
        Err(e) => Err(e),
        Ok(own) => match parse_acl_directive_set(
            config_path,
            delegation_source.as_str(),
            delegation_raw,
        ) {
            Err(e) => Err(e),
            Ok(delegation) => Ok(
                AclPolicy { own_directives: own, delegation_directives: delegation },
            ),
        },
    }
}


/// The rank and the directives of one role.
pub struct RolePolicy {
    pub name: String,
    pub rank: DispatchRank,
    pub policy: AclPolicy,
}

/// The names of role policies.
pub open spec fn role_keys(v: Seq<RolePolicy>) -> Seq<Seq<char>> {
    v.map_values(|p: RolePolicy| p.name@)
}

/// Who may dispatch what onto whom.
pub struct DispatchRankAclConfig {
    pub enabled: bool,
    pub rank_policies: RankTable,
    pub role_policies: Vec<RolePolicy>,
}

impl DispatchRankAclConfig {
    /// The policies are well-formed and the roles stand in ascending order.
    pub open spec fn wf(self) -> bool {
        &&& self.rank_policies.wf()
        &&& crate::names::ascending(role_keys(self.role_policies@))
        &&& forall|i: int|
            0 <= i < self.role_policies@.len() ==> (#[trigger] self.role_policies@[i]).policy.wf()
    }

    /// The role has a policy.
    pub open spec fn has(self, role: Seq<char>) -> bool {
        has_key(role_keys(self.role_policies@), role)
    }

    /// The policy of a role that has one.
    pub open spec fn of(self, role: Seq<char>) -> RolePolicy {
        self.role_policies@[first_at(role_keys(self.role_policies@), role)]
    }

    /// Why the role may not execute the directive, with nothing where it may.
    pub open spec fn execute_denial(self, target: Seq<char>, directive: Seq<char>) -> Option<
        Seq<char>,
    > {
        let t = norm(target);
        let d = norm(directive);
        if !self.enabled {
            None
        } else if !self.has(t) {
            Some("target role '"@ + t + "' has no rank ACL policy"@)
        } else if !self.of(t).policy.sets().own.contains(d) {
            Some(
                "target role '"@ + t + "' rank "@ + rank_text(self.of(t).rank)
                    + " is not permitted to execute directive '"@ + d + "'"@,
            )
        } else {
            None
        }
    }

    /// The edge from actor to target is one that the directive may travel: strictly down in rank, or
    /// for a reply also up, or to oneself.
    pub open spec fn edge_allowed(self, actor: Seq<char>, target: Seq<char>, directive: Seq<char>) -> bool {
        ||| self.of(actor).rank.0 > self.of(target).rank.0
        ||| directive == "reply"@ && self.of(actor).rank.0 < self.of(target).rank.0
        ||| directive == "reply"@ && actor == target
    }

    /// Why the actor may not dispatch the directive onto the role, with nothing where it may.
    pub open spec fn dispatch_denial(
        self,
        actor: Seq<char>,
        target: Seq<char>,
        directive: Seq<char>,
    ) -> Option<Seq<char>> {
        let a = norm(actor);
        let t = norm(target);
        let d = norm(directive);
        if !self.enabled {
            None
        } else if !self.has(a) {
            Some("actor '"@ + a + "' has no rank ACL policy"@)
        } else if !self.has(t) {
            Some("target role '"@ + t + "' has no rank ACL policy"@)
        } else if !self.edge_allowed(a, t, d) {
            Some(
                "actor '"@ + a + "' rank "@ + rank_text(self.of(a).rank)
                    + " cannot delegate directive '"@ + d + "' to role '"@ + t + "' rank "@
                    + rank_text(self.of(t).rank)
                    + " (requires strict downrank; reply exceptions: uprank and self-edge)"@,
            )
        } else if !self.of(a).policy.sets().delegation.contains(d) {
            Some(
                "actor '"@ + a + "' rank "@ + rank_text(self.of(a).rank)
                    + " is not permitted to delegate directive '"@ + d + "'"@,
            )
        } else {
            self.execute_denial(target, directive)
        }
    }

    /// The index of the role's policy.
    fn position(&self, role: &str) -> (r: Option<usize>)
        ensures
            r is Some <==> self.has(role@),
            r matches Some(i) ==> i < self.role_policies@.len() && self.role_policies@[i as int]
                == self.of(role@),
    {
        let ghost keys = role_keys(self.role_policies@);
        let mut i: usize = 0;
        while i < self.role_policies.len()
            invariant
                i <= self.role_policies@.len(),
                keys == role_keys(self.role_policies@),
                forall|k: int| 0 <= k < i ==> #[trigger] keys[k] != role@,
            decreases self.role_policies.len() - i,
        {
            if str_eq(self.role_policies[i].name.as_str(), role) {
                proof {
                    assert(keys[i as int] == role@);
                    lemma_first_at_is(keys, role@, i as int);
                }
                return Some(i);
            }
            proof {
                assert(keys[i as int] == self.role_policies@[i as int].name@);
            }
            i = i + 1;
        }
        proof {
            lemma_first_at_is(keys, role@, i as int);
        }
        None
    }

    /// Tells whether the role, trimmed and in lower case, has a policy.
    pub fn has_role_policy(&self, role_name: &str) -> (r: bool)
        ensures
            r == self.has(norm(role_name@)),
    {
        self.position(str_norm(role_name).as_str()).is_some()
    }

    /// Lets a role execute a directive, or says why not.
    pub fn assert_target_can_execute(&self, target_role: &str, directive: &str) -> (r: Result<
        (),
        String,
    >)
        ensures
            match self.execute_denial(target_role@, directive@) {
                None => r is Ok,
                Some(m) => r matches Err(e) && e@ == m,
            },
    {
        if !self.enabled {
            return Ok(());
        }
        let t = str_norm(target_role);
        let d = str_norm(directive);
        match self.position(t.as_str()) {
            None => Err(cat3("target role '", t.as_str(), "' has no rank ACL policy")),
            Some(i) => {
                let p = &self.role_policies[i];
                if !p.policy.own_directives.has(d.as_str()) {
                    return Err(
                        cat7(
                            "target role '",
                            t.as_str(),
                            "' rank ",
                            p.rank.text().as_str(),
                            " is not permitted to execute directive '",
                            d.as_str(),
                            "'",
                        ),
                    );
                }
                Ok(())
            },
        }
    }

    /// Lets an actor dispatch a directive onto a role, or says why not.
    pub fn assert_actor_can_dispatch(
        &self,
        actor_login: &str,
        target_role: &str,
        directive: &str,
    ) -> (r: Result<(), String>)
        ensures
            match self.dispatch_denial(actor_login@, target_role@, directive@) {
                None => r is Ok,
                Some(m) => r matches Err(e) && e@ == m,
            },
    {
        if !self.enabled {
            return Ok(());
        }
        let a = str_norm(actor_login);
        let t = str_norm(target_role);
        let d = str_norm(directive);
        let from = match self.position(a.as_str()) {
            Some(i) => i,
            None => {
                return Err(cat3("actor '", a.as_str(), "' has no rank ACL policy"));
            },
        };
        let onto = match self.position(t.as_str()) {
            Some(i) => i,
            None => {
                return Err(cat3("target role '", t.as_str(), "' has no rank ACL policy"));
            },
        };
        let ap = &self.role_policies[from];
        let tp = &self.role_policies[onto];
        let strict_downrank = ap.rank.0 > tp.rank.0;
        let is_reply = str_eq(d.as_str(), DIRECTIVE_REPLY);
        let uprank_reply = is_reply && ap.rank.0 < tp.rank.0;
        let self_reply = is_reply && str_eq(a.as_str(), t.as_str());
        if !strict_downrank && !uprank_reply && !self_reply {
            let mut m = cat7(
                "actor '",
                a.as_str(),
                "' rank ",
                ap.rank.text().as_str(),
                " cannot delegate directive '",
                d.as_str(),
                "' to role '",
            );
            m.append(t.as_str());
            m.append("' rank ");
            m.append(tp.rank.text().as_str());
            m.append(" (requires strict downrank; reply exceptions: uprank and self-edge)");
            return Err(m);
        }
        if !ap.policy.delegation_directives.has(d.as_str()) {
            return Err(
                cat7(
                    "actor '",
                    a.as_str(),
                    "' rank ",
                    ap.rank.text().as_str(),
                    " is not permitted to delegate directive '",
                    d.as_str(),
                    "'",
                ),
            );
        }
        self.assert_target_can_execute(target_role, directive)
    }
}

/// A directive set as the summary lists it.
pub open spec fn listing(s: Set<Seq<char>>) -> Seq<char> {
    join(in_order(s), ", "@)
}

/// The line of the summary for each rank below `n` that has a policy.
pub open spec fn rank_lines(ranks: Seq<Option<AclSets>>, n: int) -> Seq<Seq<char>>
    decreases n,
{
    if n <= 0 {
        Seq::empty()
    } else {
        let before = rank_lines(ranks, n - 1);
        match ranks[n - 1] {
            Some(p) => before.push(
                "- rank "@ + rank_text(DispatchRank((n - 1) as u8)) + ": own="@ + listing(p.own)
                    + "; delegation="@ + listing(p.delegation),
            ),
            None => before,
        }
    }
}

/// The first lines of the summary.
pub open spec fn summary_head() -> Seq<Seq<char>> {
    seq![
        "## Rank ACL Envelope (Delegation + Execution Scope v2)"@,
        "- Delegation edge policy: strict downrank only."@,
        "- Exception: `reply` may travel uprank (subordinate -> superior)."@,
        "- `delegation_directives`: what this role may dispatch onto another role"@,
        "- `own_directives`: what directives this role may execute when targeted"@,
    ]
}

impl DispatchRankAclConfig {
    /// The last line of the summary: what the role itself may do.
    pub open spec fn effective_line(self, role: Seq<char>) -> Seq<char> {
        if self.has(role) {
            "- effective for "@ + role + " ("@ + rank_text(self.of(role).rank) + "): own="@
                + listing(self.of(role).policy.sets().own) + "; delegation="@ + listing(
                self.of(role).policy.sets().delegation,
            )
        } else {
            "- effective for "@ + role + ": unavailable"@
        }
    }

    /// The rules as a prompt shows them to a role.
    pub open spec fn summary(self, role: Seq<char>) -> Seq<char> {
        if !self.enabled {
            "## Rank ACL Envelope\n- disabled"@
        } else {
            join(
                (summary_head() + rank_lines(self.rank_policies@, 256)).push(
                    self.effective_line(norm(role)),
                ),
                "\n"@,
            )
        }
    }

    /// The rules as a prompt shows them to `role_name`.
    pub fn acl_summary_markdown(&self, role_name: &str) -> (r: String)
        requires
            self.wf(),
        ensures
            r@ == self.summary(role_name@),
    {
        if !self.enabled {
            return "## Rank ACL Envelope\n- disabled".to_owned();
        }
        let mut out: Vec<String> = Vec::new();
        out.push("## Rank ACL Envelope (Delegation + Execution Scope v2)".to_owned());
        out.push("- Delegation edge policy: strict downrank only.".to_owned());
        out.push("- Exception: `reply` may travel uprank (subordinate -> superior).".to_owned());
        out.push("- `delegation_directives`: what this role may dispatch onto another role".to_owned());
        out.push("- `own_directives`: what directives this role may execute when targeted".to_owned());
        proof {
            assert(views(out@) =~= summary_head() + rank_lines(self.rank_policies@, 0));
        }
        let mut i: usize = 0;
        while i < 256
            invariant
                i <= 256,
                self.wf(),
                views(out@) == summary_head() + rank_lines(self.rank_policies@, i as int),
            decreases 256 - i,
        {
            let ghost before = views(out@);
            proof {
                assert(self.rank_policies@[i as int] == (match self.rank_policies.slots@[i as int] {
                    Some(p) => Some(p.sets()),
                    None => None,
                }));
            }
            if let Some(p) = &self.rank_policies.slots[i] {
                proof {
                    p.own_directives.lemma_listed();
                    p.delegation_directives.lemma_listed();
                }
                let line = cat6(
                    "- rank ",
                    DispatchRank(i as u8).text().as_str(),
                    ": own=",
                    p.own_directives.listing().as_str(),
                    "; delegation=",
                    p.delegation_directives.listing().as_str(),
                );
                let ghost text = line@;
                out.push(line);
                proof {
                    assert(views(out@) =~= before.push(text));
                    assert(before.push(text) =~= summary_head() + rank_lines(
                        self.rank_policies@,
                        i as int,
                    ).push(text));
                }
            }
            i = i + 1;
        }
        let ghost before = views(out@);
        let role = str_norm(role_name);
        let line = match self.position(role.as_str()) {
            Some(k) => {
                let p = &self.role_policies[k];
                proof {
                    p.policy.own_directives.lemma_listed();
                    p.policy.delegation_directives.lemma_listed();
                }
                let mut m = cat6(
                    "- effective for ",
                    role.as_str(),
                    " (",
                    p.rank.text().as_str(),
                    "): own=",
                    p.policy.own_directives.listing().as_str(),
                );
                m.append("; delegation=");
                m.append(p.policy.delegation_directives.listing().as_str());
                m
            },
            None => cat3("- effective for ", role.as_str(), ": unavailable"),
        };
        let ghost text = line@;
        out.push(line);
        proof {
            assert(views(out@) =~= before.push(text));
        }
        str_join(&out, "\n")
    }
}

/// An actor may dispatch a directive onto a role exactly where both have a policy, the directive travels
/// strictly down in rank, or is a reply that travels up or to oneself, the actor may delegate it and the
/// role may execute it. `ai` and `ti` are where the two stand.
pub proof fn law_delegation_is_exact(
    acl: DispatchRankAclConfig,
    actor: Seq<char>,
    target: Seq<char>,
    directive: Seq<char>,
    ai: int,
    ti: int,
)
    requires
        acl.enabled,
        0 <= ai < acl.role_policies@.len(),
        0 <= ti < acl.role_policies@.len(),
        acl.role_policies@[ai].name@ == norm(actor),
        acl.role_policies@[ti].name@ == norm(target),
        forall|k: int| 0 <= k < ai ==> (#[trigger] acl.role_policies@[k]).name@ != norm(actor),
        forall|k: int| 0 <= k < ti ==> (#[trigger] acl.role_policies@[k]).name@ != norm(target),
    ensures
        ({
            let a = acl.role_policies@[ai];
            let t = acl.role_policies@[ti];
            let reply = norm(directive) == "reply"@;
            let executes = t.policy.own_directives.names().contains(norm(directive));
            let delegates = a.policy.delegation_directives.names().contains(norm(directive));
            let edge = a.rank.0 > t.rank.0 || (reply && (a.rank.0 < t.rank.0 || norm(actor) == norm(
                target,
            )));
            &&& acl.dispatch_denial(actor, target, directive) is None <==> edge && delegates && executes
            &&& acl.execute_denial(target, directive) is None <==> executes
        }),
{
    let keys = role_keys(acl.role_policies@);
    lemma_first_at_is(keys, norm(actor), ai);
    lemma_first_at_is(keys, norm(target), ti);
}

/// Who has no policy neither dispatches nor is dispatched to.
pub proof fn law_strangers_have_no_rank(
    acl: DispatchRankAclConfig,
    name: Seq<char>,
    other: Seq<char>,
    directive: Seq<char>,
)
    requires
        acl.enabled,
        forall|k: int|
            0 <= k < acl.role_policies@.len() ==> (#[trigger] acl.role_policies@[k]).name@ != norm(name),
    ensures
        acl.dispatch_denial(name, other, directive) is Some,
        acl.dispatch_denial(other, name, directive) is Some,
        acl.execute_denial(name, directive) is Some,
{
    let keys = role_keys(acl.role_policies@);
    crate::text::lemma_first_at(keys, norm(name));
    if has_key(keys, norm(name)) {
        let k = first_at(keys, norm(name));
        assert(acl.role_policies@[k].name@ == norm(name));
    }
}

/// Unless the config says otherwise, the ranks OF-6, OF-8 and OF-10 have every directive of the work, OF-2
/// has the changes of code and the replies, and no other rank has any; what a rank may execute it may also
/// delegate.
pub proof fn law_default_ranks(n: int, d: Seq<char>)
    requires
        0 <= n < 256,
    ensures
        default_ranks().len() == 256,
        default_ranks()[n] is Some <==> n == 2 || n == 6 || n == 8 || n == 10,
        default_ranks()[n] matches Some(p) ==> p.own == p.delegation && (p.own.contains(d) <==> d
            == "impl"@ || d == "reply"@ || (n != 2 && (d == "design"@ || d == "investigate"@ || d
            == "audit"@))),
{
}

/// The rank of a role card is that of the first of its lines that gives one.
pub proof fn law_the_first_rank_counts(ls: Seq<Seq<char>>, line: Seq<char>)
    ensures
        card_rank(seq![line] + ls) == (match bullet_word(line) {
            Some(w) => if rank_number(w) is Some {
                rank_number(w)
            } else {
                card_rank(ls)
            },
            None => card_rank(ls),
        }),
        card_rank(Seq::empty()) is None,
{
    assert((seq![line] + ls).drop_first() =~= ls);
}

/// A list of directives is a set of known ones: each entry is in it, trimmed and in lower case, and
/// nothing else is; one that is blank or not known spoils the list.
pub proof fn law_directive_lists_are_sets(path: Seq<char>, source: Seq<char>, raw: Seq<Seq<char>>)
    ensures
        directive_set(path, source, raw) is Ok <==> forall|k: int|
            0 <= k < raw.len() ==> norm(#[trigger] raw[k]).len() > 0 && known_directive(norm(raw[k])),
        directive_set(path, source, raw) matches Ok(s) ==> forall|d: Seq<char>| #[trigger]
            s.contains(d) <==> exists|k: int| 0 <= k < raw.len() && norm(#[trigger] raw[k]) == d,
    decreases raw.len(),
{
    if raw.len() > 0 {
        let t = raw.drop_last();
        law_directive_lists_are_sets(path, source, t);
        assert forall|k: int| 0 <= k < t.len() implies #[trigger] t[k] == raw[k] by {}
        assert(raw[raw.len() - 1] == raw.last());
        if let Ok(s) = directive_set(path, source, raw) {
            let before = directive_set(path, source, t)->Ok_0;
            assert forall|d: Seq<char>| #[trigger] s.contains(d) <==> exists|k: int|
                0 <= k < raw.len() && norm(#[trigger] raw[k]) == d by {
                if before.contains(d) {
                    let k = choose|k: int| 0 <= k < t.len() && norm(#[trigger] t[k]) == d;
                    assert(norm(raw[k]) == d);
                }
                if exists|k: int| 0 <= k < raw.len() && norm(#[trigger] raw[k]) == d {
                    let k = choose|k: int| 0 <= k < raw.len() && norm(#[trigger] raw[k]) == d;
                    if k < t.len() {
                        assert(norm(t[k]) == d);
                    }
                }
            }
        }
        if forall|k: int|
            0 <= k < raw.len() ==> norm(#[trigger] raw[k]).len() > 0 && known_directive(norm(raw[k])) {
            assert forall|k: int| 0 <= k < t.len() implies norm(#[trigger] t[k]).len() > 0
                && known_directive(norm(t[k])) by {
                assert(raw[k] == t[k]);
            }
        }
        if directive_set(path, source, raw) is Ok {
            assert forall|k: int| 0 <= k < raw.len() implies norm(#[trigger] raw[k]).len() > 0
                && known_directive(norm(raw[k])) by {
                if k < t.len() {
                    assert(t[k] == raw[k]);
                }
            }
        }
    }
}

/// A rank is written as its number behind its letters, and no two ranks are written the same.
pub proof fn law_ranks_are_written_by_number(a: DispatchRank, b: DispatchRank)
    ensures
        rank_text(a) == "OF-"@ + decimal(a.0 as nat),
        rank_text(a) == rank_text(b) ==> a == b,
{
    let h = "OF-"@;
    if rank_text(a) == rank_text(b) {
        assert(rank_text(a).skip(h.len() as int) =~= decimal(a.0 as nat));
        assert(rank_text(b).skip(h.len() as int) =~= decimal(b.0 as nat));
        crate::text::law_decimal_is_one_to_one(a.0 as int, b.0 as int);
    }
}

/// A bullet is a line that begins with a dash or a star, and its word the first behind that.
pub proof fn law_bullets_begin_with_a_dash_or_a_star(line: Seq<char>, rest: Seq<char>)
    ensures
        trim(line) == "-"@ + rest ==> bullet_text(line) == Some(trim_start(rest)),
        trim(line) == "*"@ + rest ==> bullet_text(line) == Some(trim_start(rest)),
        !"-"@.is_prefix_of(trim(line)) && !"*"@.is_prefix_of(trim(line)) ==> bullet_text(line) is None,
        bullet_text(line) matches Some(t) ==> (words(t).len() > 0 ==> bullet_word(line) == Some(
            words(t)[0],
        )),
        bullet_text(line) is None ==> bullet_word(line) is None,
{
    reveal_strlit("-");
    reveal_strlit("*");
    crate::text::law_prefixes_come_off("-"@, rest);
    crate::text::law_prefixes_come_off("*"@, rest);
    if trim(line) == "*"@ + rest {
        assert(trim(line)[0] == '*');
        assert(!"-"@.is_prefix_of(trim(line))) by {
            if "-"@.is_prefix_of(trim(line)) {
                assert(trim(line)[0] == "-"@[0]);
            }
        }
    }
}

/// A rank is read back from what is written of it, and nothing else is one; the largest is that of a byte.
pub proof fn law_ranks_are_read_back(raw: Seq<char>, n: nat)
    ensures
        rank_token(raw) == "OF-"@ + decimal(n) && n <= 255 ==> rank_number(raw) == Some(n),
        rank_token(raw) == "OF-"@ + decimal(n) && n > 255 ==> rank_number(raw) is None,
        !"OF-"@.is_prefix_of(rank_token(raw)) ==> rank_number(raw) is None,
        rank_number(raw) matches Some(m) ==> m <= 255,
{
    crate::text::law_prefixes_come_off("OF-"@, decimal(n));
    crate::text::law_numbers_are_read(n, 255, decimal(n));
}

} // verus!
