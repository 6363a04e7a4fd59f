//! Documents that a prompt carries or points to: the rules for them, and what is made of the rules.

use crate::config_load::{binding_repos, binding_views, find_binding, DispatchRepoBindingConfig};
use crate::digest::{hex_of, sha256_hex, sha256_of};
use crate::names::{
    lemma_text_lt_irreflexive, lemma_text_lt_total, lemma_text_lt_transitive, text_before,
    text_lt, NameSet,
};
use crate::paths::{absolute, is_absolute, join_path, joined, text_result};
use crate::text::{
    add_text, cat2, cat3, cat4, cat5, cat6, clone_list, decimal, first_at, has_key, norm,
    opt_view, split, split_once, str_eq, str_norm, str_split, str_split_once, str_starts_with,
    str_strip_prefix, str_trim, trim, u64_text, views,
};
use crate::types::{repo_parts, repo_text, RepoRef};
use vstd::prelude::*;
use vstd::string::*;

verus! {

/// Whether a document is carried or pointed to.
#[derive(Clone, Copy, PartialEq, Eq, Structural, Debug)]
pub enum DocKind {
    Include,
    Point,
}

/// How much a document matters.
#[derive(Clone, Copy, PartialEq, Eq, Structural, Debug)]
pub enum DocImportance {
    Required,
    Recommended,
}

/// A path below a directory.
pub struct RelativePath(pub String);

/// What is wrong with a path below a directory.
pub open spec fn path_fault(raw: Seq<char>) -> Option<Seq<char>> {
    let p = trim(raw);
    let parts = split(p, '/');
    if p.len() == 0 {
        Some("path is empty"@)
    } else if absolute(p) {
        Some("absolute paths are not allowed: "@ + p)
    } else if "~"@.is_prefix_of(p) {
        Some("tilde paths are not allowed: "@ + p)
    } else if parts.len() > 0 && parts[0] == "."@ {
        Some("relative path must not contain '.': "@ + p)
    } else if parts.contains(".."@) {
        Some("relative path must not contain '..': "@ + p)
    } else {
        None
    }
}

/// Tells whether a list holds a text.
fn lists(items: &Vec<String>, item: &str) -> (r: bool)
    ensures
        r == views(items@).contains(item@),
{
    let mut i: usize = 0;
    while i < items.len()
        invariant
            i <= items@.len(),
            forall|k: int| 0 <= k < i ==> #[trigger] views(items@)[k] != item@,
        decreases items.len() - i,
    {
        proof {
            assert(views(items@)[i as int] == items@[i as int]@);
        }
        if str_eq(items[i].as_str(), item) {
            return true;
        }
        i = i + 1;
    }
    proof {
        assert forall|k: int| 0 <= k < views(items@).len() implies views(items@)[k] != item@ by {}
    }
    false
}

impl RelativePath {
    /// Reads a path below a directory: neither absolute nor out of the directory.
    pub fn parse(raw: &str) -> (r: Result<RelativePath, String>)
        ensures
            match path_fault(raw@) {
                None => r matches Ok(x) && x.0@ == trim(raw@),
                Some(m) => r matches Err(e) && e@ == m,
            },
    {
        let p = str_trim(raw);
        if p.is_empty() {
            return Err("path is empty".to_owned());
        }
        if is_absolute(p) {
            return Err(cat2("absolute paths are not allowed: ", p));
        }
        if str_starts_with(p, "~") {
            return Err(cat2("tilde paths are not allowed: ", p));
        }
        let parts = str_split(p, '/');
        proof {
            assert(parts@.len() == views(parts@).len());
            if parts@.len() > 0 {
                assert(views(parts@)[0] == parts@[0]@);
            }
        }
        if parts.len() > 0 && str_eq(parts[0].as_str(), ".") {
            return Err(cat2("relative path must not contain '.': ", p));
        }
        if lists(&parts, "..") {
            return Err(cat2("relative path must not contain '..': ", p));
        }
        Ok(RelativePath(p.to_owned()))
    }

    /// The text of the path.
    pub fn as_str(&self) -> (r: &str)
        ensures
            r@ == self.0@,
    {
        self.0.as_str()
    }
}

/// Where a document is: in the working directory, or in a bound repository.
#[verifier::ext_equal]
pub enum Place<S> {
    Workdir { path: S },
    Repo { owner: S, repo: S, path: S },
}

/// Where a document is, at run time.
pub type DocRef = Place<String>;

/// The view of a place.
pub open spec fn place_view(d: DocRef) -> Place<Seq<char>> {
    match d {
        Place::Workdir { path } => Place::Workdir { path: path@ },
        Place::Repo { owner, repo, path } => Place::Repo {
            owner: owner@,
            repo: repo@,
            path: path@,
        },
    }
}

/// A path, or what is wrong with it.
pub open spec fn checked_path(raw: Seq<char>) -> Result<Seq<char>, Seq<char>> {
    match path_fault(raw) {
        None => Ok(trim(raw)),
        Some(m) => Err(m),
    }
}

/// The place that a reference names, or what is wrong with it.
pub open spec fn place_of(raw: Seq<char>) -> Result<Place<Seq<char>>, Seq<char>> {
    let t = trim(raw);
    if t.len() == 0 {
        Err("ref is empty"@)
    } else if "workdir:"@.is_prefix_of(t) {
        match checked_path(t.skip("workdir:"@.len() as int)) {
            Ok(path) => Ok(Place::Workdir { path }),
            Err(m) => Err(m),
        }
    } else if "repo:"@.is_prefix_of(t) {
        match split_once(t.skip("repo:"@.len() as int), ':') {
            None => Err("repo ref is missing path: "@ + t),
            Some(p) => match repo_parts(p.0) {
                None => Err(
                    "invalid repo in ref "@ + t + ": "@ + ("invalid repo ref '"@ + p.0
                        + "'; expected owner/repo"@),
                ),
                Some(r) => match checked_path(p.1) {
                    Ok(path) => Ok(Place::Repo { owner: r.0, repo: r.1, path }),
                    Err(m) => Err(m),
                },
            },
        }
    } else {
        Err("unsupported ref format (expected workdir:... or repo:...): "@ + t)
    }
}

/// The text of a place.
pub open spec fn shown(d: Place<Seq<char>>) -> Seq<char> {
    match d {
        Place::Workdir { path } => "workdir:"@ + path,
        Place::Repo { owner, repo, path } => "repo:"@ + repo_text(owner, repo) + ":"@ + path,
    }
}

impl Place<String> {
    /// Reads a reference to a document.
    pub fn parse(raw: &str) -> (r: Result<DocRef, String>)
        ensures
            match place_of(raw@) {
                Ok(d) => r matches Ok(x) && place_view(x) == d,
                Err(m) => r matches Err(e) && e@ == m,
            },
    {
        let t = str_trim(raw);
        if t.is_empty() {
            return Err("ref is empty".to_owned());
        }
        if let Some(rest) = str_strip_prefix(t, "workdir:") {
            return match RelativePath::parse(rest) {
                Ok(path) => Ok(Place::Workdir { path: path.0 }),
                Err(e) => Err(e),
            };
        }
        if let Some(rest) = str_strip_prefix(t, "repo:") {
            let (repo, path) = match str_split_once(rest, ':') {
                Some(p) => p,
                None => {
                    return Err(cat2("repo ref is missing path: ", t));
                },
            };
            let repo = match RepoRef::parse(repo) {
                Ok(x) => x,
                Err(e) => {
                    return Err(cat4("invalid repo in ref ", t, ": ", e.as_str()));
                },
            };
            return match RelativePath::parse(path) {
                Ok(path) => Ok(
                    Place::Repo { owner: repo.owner, repo: repo.repo, path: path.0 },
                ),
                Err(e) => Err(e),
            };
        }
        Err(cat2("unsupported ref format (expected workdir:... or repo:...): ", t))
    }

    /// The text of the place.
    pub fn display(&self) -> (r: String)
        ensures
            r@ == shown(place_view(*self)),
    {
        match self {
            Place::Workdir { path } => cat2("workdir:", path.as_str()),
            Place::Repo { owner, repo, path } => {
                let full = cat3(owner.as_str(), "/", repo.as_str());
                cat4("repo:", full.as_str(), ":", path.as_str())
            },
        }
    }

    /// A copy.
    pub fn copied(&self) -> (r: DocRef)
        ensures
            place_view(r) == place_view(*self),
    {
        match self {
            Place::Workdir { path } => Place::Workdir { path: path.clone() },
            Place::Repo { owner, repo, path } => Place::Repo {
                owner: owner.clone(),
                repo: repo.clone(),
                path: path.clone(),
            },
        }
    }
}

/// A path that was read leads nowhere above its directory.
pub proof fn law_paths_stay_below(raw: Seq<char>)
    requires
        path_fault(raw) is None,
    ensures
        !absolute(trim(raw)),
        !split(trim(raw), '/').contains(".."@),
{
}

/// Which roles or directives a rule is for.
pub struct SelectorSet {
    pub any: bool,
    pub values: NameSet,
}

/// What selectors choose: all, or a set of names.
#[verifier::ext_equal]
pub struct Choice {
    pub any: bool,
    pub names: Set<Seq<char>>,
}

/// What the selectors choose beside those that were read: a star chooses all, whatever follows it.
pub open spec fn chosen_after(done: Set<Seq<char>>, rest: Seq<Seq<char>>, label: Seq<char>) -> Result<
    Choice,
    Seq<char>,
>
    decreases rest.len(),
{
    if rest.len() == 0 {
        Ok(Choice { any: false, names: done })
    } else if norm(rest[0]).len() == 0 {
        Err(label + " selector contains empty value"@)
    } else if norm(rest[0]) == "*"@ {
        Ok(Choice { any: true, names: Set::empty() })
    } else {
        chosen_after(done.insert(norm(rest[0])), rest.drop_first(), label)
    }
}

/// What selectors choose.
pub open spec fn chosen(raw: Seq<Seq<char>>, label: Seq<char>) -> Result<Choice, Seq<char>> {
    if raw.len() == 0 {
        Err(label + " selector list is empty"@)
    } else {
        chosen_after(Set::empty(), raw, label)
    }
}

/// The choice takes a value.
pub open spec fn takes(c: Choice, value: Seq<char>) -> bool {
    c.any || c.names.contains(norm(value))
}

impl SelectorSet {
    /// What the selectors choose.
    pub open spec fn choice(self) -> Choice {
        Choice { any: self.any, names: self.values.names() }
    }

    /// Reads selectors.
    pub fn parse(raw: &Vec<String>, label: &str) -> (r: Result<SelectorSet, String>)
        ensures
            match chosen(views(raw@), label@) {
                Ok(c) => r matches Ok(x) && x.values.wf() && x.choice() == c,
                Err(m) => r matches Err(e) && e@ == m,
            },
    {
        if raw.len() == 0 {
            return Err(cat2(label, " selector list is empty"));
        }
        let ghost all = views(raw@);
        let ghost goal = chosen(all, label@);
        let mut values = NameSet::new();
        let mut i: usize = 0;
        proof {
            assert(all.skip(0) =~= all);
            assert(values.names() =~= Set::<Seq<char>>::empty());
        }
        while i < raw.len()
            invariant
                i <= raw@.len(),
                all == views(raw@),
                values.wf(),
                goal == chosen(all, label@),
                chosen_after(values.names(), all.skip(i as int), label@) == goal,
            decreases raw.len() - i,
        {
            proof {
                assert(all.skip(i as int)[0] == all[i as int]);
                assert(all.skip(i as int).drop_first() =~= all.skip(i + 1));
            }
            let item = str_norm(raw[i].as_str());
            if item.as_str().is_empty() {
                return Err(cat2(label, " selector contains empty value"));
            }
            if str_eq(item.as_str(), "*") {
                let none = NameSet::new();
                proof {
                    assert(none.names() =~= Set::<Seq<char>>::empty());
                }
                return Ok(SelectorSet { any: true, values: none });
            }
            values.add(item);
            i = i + 1;
        }
        Ok(SelectorSet { any: false, values })
    }

    /// Tells whether the selectors choose a value.
    pub fn matches(&self, value: &str) -> (r: bool)
        requires
            self.values.wf(),
        ensures
            r == takes(self.choice(), value@),
    {
        if self.any {
            return true;
        }
        let v = str_norm(value);
        self.values.has(v.as_str())
    }
}

/// A rule for a document as it is written down.
pub struct ReadingMaterialRuleSpec {
    pub kind: String,
    pub reference: String,
    pub roles: Vec<String>,
    pub directives: Vec<String>,
    pub order: i64,
    pub importance: String,
    pub max_bytes: Option<u64>,
}

/// Rules for documents, and how much of them a prompt carries.
pub struct ReadingMaterialSpecSet {
    pub max_doc_bytes: u64,
    pub max_total_bytes: u64,
    pub rule: Vec<ReadingMaterialRuleSpec>,
}

/// How much of one document a prompt carries, where nothing else is set.
pub const DEFAULT_MAX_DOC_BYTES: u64 = 262_144;

/// How much of all documents a prompt carries, where nothing else is set.
pub const DEFAULT_MAX_TOTAL_BYTES: u64 = 1_048_576;

/// How much of one document a prompt carries, where nothing else is set.
pub fn default_max_doc_bytes() -> (r: u64)
    ensures
        r == 256 * 1024,
{
    DEFAULT_MAX_DOC_BYTES
}

/// How much of all documents a prompt carries, where nothing else is set.
pub fn default_max_total_bytes() -> (r: u64)
    ensures
        r == 1024 * 1024,
{
    DEFAULT_MAX_TOTAL_BYTES
}

/// The selectors of a rule that has none: they choose all.
pub fn default_selector_any() -> (r: Vec<String>)
    ensures
        views(r@) == seq!["*"@],
{
    let mut v: Vec<String> = Vec::new();
    add_text(&mut v, "*".to_owned());
    proof {
        assert(views(v@) =~= seq!["*"@]);
    }
    v
}

/// The importance of a rule that has none.
pub fn default_importance() -> (r: String)
    ensures
        r@ == "recommended"@,
{
    "recommended".to_owned()
}

impl ReadingMaterialSpecSet {
    /// No rules, and the budgets where nothing else is set.
    pub fn fallback() -> (r: ReadingMaterialSpecSet)
        ensures
            r.max_doc_bytes == DEFAULT_MAX_DOC_BYTES,
            r.max_total_bytes == DEFAULT_MAX_TOTAL_BYTES,
            r.rule@ == Seq::<ReadingMaterialRuleSpec>::empty(),
    {
        ReadingMaterialSpecSet {
            max_doc_bytes: DEFAULT_MAX_DOC_BYTES,
            max_total_bytes: DEFAULT_MAX_TOTAL_BYTES,
            rule: Vec::new(),
        }
    }
}

/// Where a rule comes from.
#[derive(Clone, Copy, PartialEq, Eq, Structural, Debug)]
pub enum RuleLayer {
    Global,
    Repo,
}

/// A rule that applies.
#[verifier::ext_equal]
pub struct DocRule<S> {
    pub layer: RuleLayer,
    pub kind: DocKind,
    pub place: Place<S>,
    pub order: i64,
    pub importance: DocImportance,
    pub max_bytes: Option<u64>,
}

/// The view of a rule.
pub open spec fn rule_view(r: DocRule<String>) -> DocRule<Seq<char>> {
    DocRule {
        layer: r.layer,
        kind: r.kind,
        place: place_view(r.place),
        order: r.order,
        importance: r.importance,
        max_bytes: r.max_bytes,
    }
}

/// The views of rules.
pub open spec fn rule_views(v: Seq<DocRule<String>>) -> Seq<DocRule<Seq<char>>> {
    v.map_values(|r: DocRule<String>| rule_view(r))
}

/// The kind that a word names.
pub open spec fn kind_of(word: Seq<char>) -> Option<DocKind> {
    if word == "include"@ {
        Some(DocKind::Include)
    } else if word == "point"@ {
        Some(DocKind::Point)
    } else {
        None
    }
}

/// The importance that a word names.
pub open spec fn importance_of(word: Seq<char>) -> Option<DocImportance> {
    if word == "required"@ {
        Some(DocImportance::Required)
    } else if word == "recommended"@ {
        Some(DocImportance::Recommended)
    } else {
        None
    }
}

/// The rule and what it is for, or what is wrong with it.
pub open spec fn rule_read(spec: ReadingMaterialRuleSpec, layer: RuleLayer, source: Seq<char>) -> Result<
    (DocRule<Seq<char>>, Choice, Choice),
    Seq<char>,
> {
    let kind = norm(spec.kind@);
    let importance = norm(spec.importance@);
    if kind_of(kind) is None {
        Err(source + ": unknown kind '"@ + kind + "'"@)
    } else if importance_of(importance) is None {
        Err(source + ": unknown importance '"@ + importance + "'"@)
    } else {
        match place_of(spec.reference@) {
            Err(m) => Err(source + ": invalid ref: "@ + m),
            Ok(place) => match chosen(views(spec.roles@), "roles"@) {
                Err(m) => Err(source + ": "@ + m),
                Ok(roles) => match chosen(views(spec.directives@), "directives"@) {
                    Err(m) => Err(source + ": "@ + m),
                    Ok(directives) => Ok(
                        (
                            DocRule {
                                layer,
                                kind: kind_of(kind)->0,
                                place,
                                order: spec.order,
                                importance: importance_of(importance)->0,
                                max_bytes: spec.max_bytes,
                            },
                            roles,
                            directives,
                        ),
                    ),
                },
            },
        }
    }
}

impl ReadingMaterialRuleSpec {
    /// Reads a rule, and what it is for.
    pub fn parse(&self, layer: RuleLayer, source: &str) -> (r: Result<
        (DocRule<String>, SelectorSet, SelectorSet),
        String,
    >)
        ensures
            match rule_read(*self, layer, source@) {
                Ok(x) => r matches Ok(y) && rule_view(y.0) == x.0 && y.1.values.wf()
                    && y.1.choice() == x.1 && y.2.values.wf() && y.2.choice() == x.2,
                Err(m) => r matches Err(e) && e@ == m,
            },
    {
        let word = str_norm(self.kind.as_str());
        let kind = if str_eq(word.as_str(), "include") {
            DocKind::Include
        } else if str_eq(word.as_str(), "point") {
            DocKind::Point
        } else {
            return Err(cat4(source, ": unknown kind '", word.as_str(), "'"));
        };
        let weight = str_norm(self.importance.as_str());
        let importance = if str_eq(weight.as_str(), "required") {
            DocImportance::Required
        } else if str_eq(weight.as_str(), "recommended") {
            DocImportance::Recommended
        } else {
            return Err(cat4(source, ": unknown importance '", weight.as_str(), "'"));
        };
        let place = match DocRef::parse(self.reference.as_str()) {
            Ok(x) => x,
            Err(e) => {
                return Err(cat3(source, ": invalid ref: ", e.as_str()));
            },
        };
        let roles = match SelectorSet::parse(&self.roles, "roles") {
            Ok(x) => x,
            Err(e) => {
                return Err(cat3(source, ": ", e.as_str()));
            },
        };
        let directives = match SelectorSet::parse(&self.directives, "directives") {
            Ok(x) => x,
            Err(e) => {
                return Err(cat3(source, ": ", e.as_str()));
            },
        };
        let rule = DocRule {
            layer,
            kind,
            place,
            order: self.order,
            importance,
            max_bytes: self.max_bytes,
        };
        Ok((rule, roles, directives))
    }
}

/// What a rule is called in warnings.
pub open spec fn source_name(layer: RuleLayer, index: nat) -> Seq<char> {
    (match layer {
        RuleLayer::Global => "Global"@,
        RuleLayer::Repo => "Repo"@,
    }) + " rule "@ + decimal(index)
}

/// The rules of a layer that apply, in their order, and the warnings about those that cannot be read.
pub open spec fn layer_read(
    layer: RuleLayer,
    specs: Seq<ReadingMaterialRuleSpec>,
    role: Seq<char>,
    directive: Seq<char>,
) -> (Seq<DocRule<Seq<char>>>, Seq<Seq<char>>)
    decreases specs.len(),
{
    if specs.len() == 0 {
        (Seq::empty(), Seq::empty())
    } else {
        let before = layer_read(layer, specs.drop_last(), role, directive);
        match rule_read(specs.last(), layer, source_name(layer, (specs.len() - 1) as nat)) {
            Ok(x) => if takes(x.1, role) && takes(x.2, directive) {
                (before.0.push(x.0), before.1)
            } else {
                before
            },
            Err(m) => (before.0, before.1.push(m)),
        }
    }
}

/// Reads the rules of a layer.
fn read_layer(
    layer: RuleLayer,
    specs: &Vec<ReadingMaterialRuleSpec>,
    role: &str,
    directive: &str,
) -> (r: (Vec<DocRule<String>>, Vec<String>))
    ensures
        (rule_views(r.0@), views(r.1@)) == layer_read(layer, specs@, role@, directive@),
{
    let mut rules: Vec<DocRule<String>> = Vec::new();
    let mut warnings: Vec<String> = Vec::new();
    let mut i: usize = 0;
    proof {
        assert(specs@.take(0) =~= Seq::<ReadingMaterialRuleSpec>::empty());
        assert(rule_views(rules@) =~= Seq::<DocRule<Seq<char>>>::empty());
        assert(views(warnings@) =~= Seq::<Seq<char>>::empty());
    }
    while i < specs.len()
        invariant
            i <= specs@.len(),
            (rule_views(rules@), views(warnings@)) == layer_read(
                layer,
                specs@.take(i as int),
                role@,
                directive@,
            ),
        decreases specs.len() - i,
    {
        proof {
            assert(specs@.take(i + 1).last() == specs@[i as int]);
            assert(specs@.take(i + 1).drop_last() =~= specs@.take(i as int));
        }
        let n = u64_text(i as u64);
        let head = match layer {
            RuleLayer::Global => "Global",
            RuleLayer::Repo => "Repo",
        };
        let source = cat3(head, " rule ", n.as_str());
        match specs[i].parse(layer, source.as_str()) {
            Ok((rule, roles, directives)) => {
                if roles.matches(role) && directives.matches(directive) {
                    let ghost before = rules@;
                    rules.push(rule);
                    proof {
                        assert(rule_views(rules@) =~= rule_views(before).push(rule_view(rule)));
                    }
                }
            },
            Err(e) => {
                add_text(&mut warnings, e);
            },
        }
        i = i + 1;
    }
    proof {
        assert(specs@.take(i as int) =~= specs@);
    }
    (rules, warnings)
}

/// A rule comes before another: by layer, then by order, then by the text of its document.
pub open spec fn rule_before(a: DocRule<Seq<char>>, b: DocRule<Seq<char>>) -> bool {
    if a.layer != b.layer {
        a.layer == RuleLayer::Global
    } else if a.order != b.order {
        a.order < b.order
    } else {
        text_lt(shown(a.place), shown(b.place))
    }
}

/// Rules in order with one more, behind those that do not come after it.
pub open spec fn rule_placed(v: Seq<DocRule<Seq<char>>>, x: DocRule<Seq<char>>) -> Seq<
    DocRule<Seq<char>>,
>
    decreases v.len(),
{
    if v.len() > 0 && rule_before(x, v.last()) {
        rule_placed(v.drop_last(), x).push(v.last())
    } else {
        v.push(x)
    }
}

/// Rules in order; those of one place in the order stay as they stood.
pub open spec fn rules_sorted(v: Seq<DocRule<Seq<char>>>) -> Seq<DocRule<Seq<char>>>
    decreases v.len(),
{
    if v.len() == 0 {
        Seq::empty()
    } else {
        rule_placed(rules_sorted(v.drop_last()), v.last())
    }
}

/// A rule comes before another.
fn comes_before(a: &DocRule<String>, b: &DocRule<String>) -> (r: bool)
    ensures
        r == rule_before(rule_view(*a), rule_view(*b)),
{
    if a.layer != b.layer {
        a.layer == RuleLayer::Global
    } else if a.order != b.order {
        a.order < b.order
    } else {
        let x = a.place.display();
        let y = b.place.display();
        text_before(x.as_str(), y.as_str())
    }
}

/// Inserts a rule behind those that do not come after it.
fn place_rule(v: &mut Vec<DocRule<String>>, x: DocRule<String>)
    ensures
        rule_views(final(v)@) == rule_placed(rule_views(old(v)@), rule_view(x)),
{
    let ghost before = rule_views(v@);
    let ghost given = rule_view(x);
    let mut i: usize = v.len();
    proof {
        assert(before.take(before.len() as int) =~= before);
        assert(before.skip(before.len() as int) =~= Seq::<DocRule<Seq<char>>>::empty());
        assert(rule_placed(before, given) =~= rule_placed(before, given) + Seq::<
            DocRule<Seq<char>>,
        >::empty());
    }
    while i > 0 && comes_before(&x, &v[i - 1])
        invariant
            i <= v@.len(),
            before == rule_views(v@),
            v@ == old(v)@,
            given == rule_view(x),
            rule_placed(before, given) == rule_placed(before.take(i as int), given) + before.skip(
                i as int,
            ),
        decreases i,
    {
        proof {
            let t = before.take(i as int);
            assert(t.last() == before[i - 1]);
            assert(t.drop_last() =~= before.take(i - 1));
            assert(rule_placed(t, given) + before.skip(i as int) =~= rule_placed(
                before.take(i - 1),
                given,
            ) + before.skip(i - 1));
        }
        i = i - 1;
    }
    proof {
        let t = before.take(i as int);
        if i > 0 {
            assert(t.last() == before[i - 1]);
        }
        assert(before.insert(i as int, given) =~= t.push(given) + before.skip(i as int));
    }
    v.insert(i, x);
    proof {
        assert(rule_views(v@) =~= before.insert(i as int, given));
    }
}

/// A copy of a rule.
fn copy_rule(x: &DocRule<String>) -> (r: DocRule<String>)
    ensures
        rule_view(r) == rule_view(*x),
{
    DocRule {
        layer: x.layer,
        kind: x.kind,
        place: x.place.copied(),
        order: x.order,
        importance: x.importance,
        max_bytes: x.max_bytes,
    }
}

/// Rules in order.
fn sort_rules(v: &Vec<DocRule<String>>) -> (r: Vec<DocRule<String>>)
    ensures
        rule_views(r@) == rules_sorted(rule_views(v@)),
{
    let ghost all = rule_views(v@);
    let mut out: Vec<DocRule<String>> = Vec::new();
    let mut i: usize = 0;
    proof {
        assert(all.take(0) =~= Seq::<DocRule<Seq<char>>>::empty());
        assert(rule_views(out@) =~= Seq::<DocRule<Seq<char>>>::empty());
    }
    while i < v.len()
        invariant
            i <= v@.len(),
            all == rule_views(v@),
            rule_views(out@) == rules_sorted(all.take(i as int)),
        decreases v.len() - i,
    {
        proof {
            assert(all.take(i + 1).last() == all[i as int]);
            assert(all.take(i + 1).drop_last() =~= all.take(i as int));
        }
        let x = copy_rule(&v[i]);
        place_rule(&mut out, x);
        i = i + 1;
    }
    proof {
        assert(all.take(i as int) =~= all);
    }
    out
}

/// One of the rules is for the document of that text.
pub open spec fn names_doc(v: Seq<DocRule<Seq<char>>>, text: Seq<char>) -> bool {
    exists|k: int| 0 <= k < v.len() && shown((#[trigger] v[k]).place) == text
}

/// The first rule for each document.
pub open spec fn first_rules(v: Seq<DocRule<Seq<char>>>) -> Seq<DocRule<Seq<char>>>
    decreases v.len(),
{
    if v.len() == 0 {
        Seq::empty()
    } else {
        let before = first_rules(v.drop_last());
        if names_doc(before, shown(v.last().place)) {
            before
        } else {
            before.push(v.last())
        }
    }
}

/// Tells whether one of the rules is for the document of that text.
fn has_doc(v: &Vec<DocRule<String>>, text: &str) -> (r: bool)
    ensures
        r == names_doc(rule_views(v@), text@),
{
    let mut i: usize = 0;
    while i < v.len()
        invariant
            i <= v@.len(),
            forall|k: int|
                0 <= k < i ==> shown((#[trigger] rule_views(v@)[k]).place) != text@,
        decreases v.len() - i,
    {
        let shown_text = v[i].place.display();
        proof {
            assert(rule_views(v@)[i as int] == rule_view(v@[i as int]));
        }
        if str_eq(shown_text.as_str(), text) {
            return true;
        }
        i = i + 1;
    }
    false
}

/// The first rule for each document.
fn keep_first(v: &Vec<DocRule<String>>) -> (r: Vec<DocRule<String>>)
    ensures
        rule_views(r@) == first_rules(rule_views(v@)),
{
    let ghost all = rule_views(v@);
    let mut out: Vec<DocRule<String>> = Vec::new();
    let mut i: usize = 0;
    proof {
        assert(all.take(0) =~= Seq::<DocRule<Seq<char>>>::empty());
        assert(rule_views(out@) =~= Seq::<DocRule<Seq<char>>>::empty());
    }
    while i < v.len()
        invariant
            i <= v@.len(),
            all == rule_views(v@),
            rule_views(out@) == first_rules(all.take(i as int)),
        decreases v.len() - i,
    {
        proof {
            assert(all.take(i + 1).last() == all[i as int]);
            assert(all.take(i + 1).drop_last() =~= all.take(i as int));
        }
        let key = v[i].place.display();
        if !has_doc(&out, key.as_str()) {
            let x = copy_rule(&v[i]);
            let ghost before = out@;
            out.push(x);
            proof {
                assert(rule_views(out@) =~= rule_views(before).push(rule_view(x)));
            }
        }
        i = i + 1;
    }
    proof {
        assert(all.take(i as int) =~= all);
    }
    out
}

/// How much of documents a prompt carries.
#[derive(Clone, Copy, PartialEq, Eq, Structural, Debug)]
pub struct DocBudgets {
    pub max_doc_bytes: u64,
    pub max_total_bytes: u64,
}

/// The smaller of two numbers.
pub open spec fn least(a: u64, b: u64) -> u64 {
    if a <= b {
        a
    } else {
        b
    }
}

/// The smaller of two budgets.
pub fn min_budget(a: u64, b: u64) -> (r: u64)
    ensures
        r == least(a, b),
{
    if a <= b {
        a
    } else {
        b
    }
}

/// What becomes of a document.
#[derive(Clone, Copy, PartialEq, Eq, Structural, Debug)]
pub enum DocDisposition {
    Included,
    Pointed,
    Omitted,
}

/// A document of the plan.
#[verifier::ext_equal]
pub struct PlannedDoc<S> {
    pub layer: RuleLayer,
    pub order: i64,
    pub desired_kind: DocKind,
    pub disposition: DocDisposition,
    pub importance: DocImportance,
    pub doc_ref: S,
    pub resolved_path: Option<S>,
    pub bytes: Option<u64>,
    pub sha256: Option<S>,
    pub downgraded_reason: Option<S>,
    pub omitted_reason: Option<S>,
}

/// A document of the plan, at run time.
pub type DocPlanDoc = PlannedDoc<String>;

/// The view of a document of the plan.
pub open spec fn doc_view(d: DocPlanDoc) -> PlannedDoc<Seq<char>> {
    PlannedDoc {
        layer: d.layer,
        order: d.order,
        desired_kind: d.desired_kind,
        disposition: d.disposition,
        importance: d.importance,
        doc_ref: d.doc_ref@,
        resolved_path: opt_view(d.resolved_path),
        bytes: d.bytes,
        sha256: opt_view(d.sha256),
        downgraded_reason: opt_view(d.downgraded_reason),
        omitted_reason: opt_view(d.omitted_reason),
    }
}

/// The views of the documents of a plan.
pub open spec fn doc_views(v: Seq<DocPlanDoc>) -> Seq<PlannedDoc<Seq<char>>> {
    v.map_values(|d: DocPlanDoc| doc_view(d))
}

/// What was found of a document's file: its size and digest, or why it cannot be had.
#[verifier::ext_equal]
pub enum DocFile<S> {
    Found { bytes: u64, sha256: S },
    Failed(S),
}

/// The view of what was found.
pub open spec fn file_view(f: DocFile<String>) -> DocFile<Seq<char>> {
    match f {
        DocFile::Found { bytes, sha256 } => DocFile::Found { bytes, sha256: sha256@ },
        DocFile::Failed(e) => DocFile::Failed(e@),
    }
}

/// The views of what was found.
pub open spec fn file_views(v: Seq<DocFile<String>>) -> Seq<DocFile<Seq<char>>> {
    v.map_values(|f: DocFile<String>| file_view(f))
}

/// What is found of a file: where it was read whole, its size and its digest.
pub fn sha256_file(path: &str, is_file: bool, metadata_len: u64, data: &Vec<u8>) -> (r: DocFile<String>)
    ensures
        file_view(r) == (if !is_file {
            DocFile::<Seq<char>>::Failed("path is not a regular file: "@ + path@)
        } else if data@.len() != metadata_len {
            DocFile::Failed(
                "hash read bytes ("@ + decimal(data@.len()) + ") did not match metadata len ("@
                    + decimal(metadata_len as nat) + ") for "@ + path@,
            )
        } else {
            DocFile::Found { bytes: metadata_len, sha256: hex_of(sha256_of(data@)) }
        }),
{
    if !is_file {
        return DocFile::Failed(cat2("path is not a regular file: ", path));
    }
    let n: u64 = data.len() as u64;
    if n != metadata_len {
        let a = u64_text(n);
        let b = u64_text(metadata_len);
        return DocFile::Failed(
            cat6(
                "hash read bytes (",
                a.as_str(),
                ") did not match metadata len (",
                b.as_str(),
                ") for ",
                path,
            ),
        );
    }
    DocFile::Found { bytes: metadata_len, sha256: sha256_hex(data.as_slice()) }
}

/// The path of a document, or why it has none.
pub open spec fn place_path(
    root: Seq<char>,
    bindings: Seq<DispatchRepoBindingConfig>,
    place: Place<Seq<char>>,
) -> Result<Seq<char>, Seq<char>> {
    match place {
        Place::Workdir { path } => Ok(joined(root, path)),
        Place::Repo { owner, repo, path } => {
            let full = repo_text(owner, repo);
            let keys = binding_repos(binding_views(bindings));
            if has_key(keys, full) {
                Ok(joined(bindings[first_at(keys, full)].local_path@, path))
            } else {
                Err("repo ref requires existing repo_bindings entry for "@ + full)
            }
        },
    }
}

/// The path of a document: below the working directory, or below the checkout of a bound repository.
pub fn resolve_doc_ref(
    repo_root: &str,
    repo_bindings: &Vec<DispatchRepoBindingConfig>,
    doc_ref: &DocRef,
) -> (r: Result<String, String>)
    ensures
        text_result(r) == place_path(repo_root@, repo_bindings@, place_view(*doc_ref)),
{
    match doc_ref {
        Place::Workdir { path } => Ok(join_path(repo_root, path.as_str())),
        Place::Repo { owner, repo, path } => {
            let full = cat3(owner.as_str(), "/", repo.as_str());
            match find_binding(repo_bindings, full.as_str()) {
                Some(i) => Ok(
                    join_path(repo_bindings[i].local_path.as_str(), path.as_str()),
                ),
                None => Err(
                    cat2("repo ref requires existing repo_bindings entry for ", full.as_str()),
                ),
            }
        },
    }
}

/// What is found of a document: nothing where it has no path.
pub open spec fn found(path: Result<Seq<char>, Seq<char>>, file: DocFile<Seq<char>>) -> DocFile<Seq<char>> {
    match path {
        Ok(_) => file,
        Err(m) => DocFile::Failed(m),
    }
}

/// The larger of a sum that machine numbers hold.
pub open spec fn capped_sum(a: u64, b: u64) -> u64 {
    if a + b > u64::MAX {
        u64::MAX
    } else {
        (a + b) as u64
    }
}

/// How much of a document its rule lets a prompt carry.
pub open spec fn doc_limit(rule: DocRule<Seq<char>>, budgets: DocBudgets) -> u64 {
    match rule.max_bytes {
        Some(v) => least(v, budgets.max_doc_bytes),
        None => budgets.max_doc_bytes,
    }
}

/// What becomes of a document of some size, and why it is only pointed to where it should be carried.
pub open spec fn disposed(rule: DocRule<Seq<char>>, bytes: u64, budgets: DocBudgets, total: u64) -> (
    DocDisposition,
    Option<Seq<char>>,
) {
    match rule.kind {
        DocKind::Point => (DocDisposition::Pointed, None),
        DocKind::Include => if bytes > doc_limit(rule, budgets) {
            (DocDisposition::Pointed, Some("doc_too_large"@))
        } else if capped_sum(total, bytes) > budgets.max_total_bytes {
            (DocDisposition::Pointed, Some("total_budget_exceeded"@))
        } else {
            (DocDisposition::Included, None)
        },
    }
}

/// The document of the plan for a rule.
pub open spec fn doc_planned(
    rule: DocRule<Seq<char>>,
    path: Result<Seq<char>, Seq<char>>,
    file: DocFile<Seq<char>>,
    budgets: DocBudgets,
    total: u64,
) -> PlannedDoc<Seq<char>> {
    match found(path, file) {
        DocFile::Found { bytes, sha256 } => {
            let d = disposed(rule, bytes, budgets, total);
            PlannedDoc {
                layer: rule.layer,
                order: rule.order,
                desired_kind: rule.kind,
                disposition: d.0,
                importance: rule.importance,
                doc_ref: shown(rule.place),
                resolved_path: Some(path->Ok_0),
                bytes: Some(bytes),
                sha256: Some(sha256),
                downgraded_reason: d.1,
                omitted_reason: None,
            }
        },
        DocFile::Failed(m) => PlannedDoc {
            layer: rule.layer,
            order: rule.order,
            desired_kind: rule.kind,
            disposition: DocDisposition::Omitted,
            importance: rule.importance,
            doc_ref: shown(rule.place),
            resolved_path: None,
            bytes: None,
            sha256: None,
            downgraded_reason: None,
            omitted_reason: Some(m),
        },
    }
}

/// What is carried once the document is planned.
pub open spec fn total_after(d: PlannedDoc<Seq<char>>, total: u64) -> u64 {
    if d.disposition == DocDisposition::Included {
        capped_sum(total, d.bytes->0)
    } else {
        total
    }
}

/// What is said of a document that cannot be had.
pub open spec fn doc_warning(d: PlannedDoc<Seq<char>>) -> Option<Seq<char>> {
    match d.omitted_reason {
        Some(m) => Some(d.doc_ref + ": "@ + m),
        None => None,
    }
}

/// A plan for documents as far as it has come.
#[verifier::ext_equal]
pub struct DocState {
    pub docs: Seq<PlannedDoc<Seq<char>>>,
    pub total: u64,
    pub warnings: Seq<Seq<char>>,
}

/// The plan for documents with the rules and what was found of their files, one by one.
pub open spec fn docs_planned(
    rules: Seq<DocRule<Seq<char>>>,
    files: Seq<DocFile<Seq<char>>>,
    root: Seq<char>,
    bindings: Seq<DispatchRepoBindingConfig>,
    budgets: DocBudgets,
) -> DocState
    decreases rules.len(),
{
    if rules.len() == 0 {
        DocState { docs: Seq::empty(), total: 0, warnings: Seq::empty() }
    } else {
        let before = docs_planned(rules.drop_last(), files, root, bindings, budgets);
        let rule = rules.last();
        let d = doc_planned(
            rule,
            place_path(root, bindings, rule.place),
            files[rules.len() - 1],
            budgets,
            before.total,
        );
        DocState {
            docs: before.docs.push(d),
            total: total_after(d, before.total),
            warnings: match doc_warning(d) {
                Some(w) => before.warnings.push(w),
                None => before.warnings,
            },
        }
    }
}

/// The document of the plan for a rule.
fn plan_doc(
    rule: &DocRule<String>,
    path: &Result<String, String>,
    file: &DocFile<String>,
    budgets: DocBudgets,
    total: u64,
) -> (r: DocPlanDoc)
    ensures
        doc_view(r) == doc_planned(
            rule_view(*rule),
            text_result(*path),
            file_view(*file),
            budgets,
            total,
        ),
{
    let omitted_reason = match path {
        Err(e) => Some(e.clone()),
        Ok(_) => match file {
            DocFile::Failed(e) => Some(e.clone()),
            DocFile::Found { .. } => None,
        },
    };
    let mut d = PlannedDoc {
        layer: rule.layer,
        order: rule.order,
        desired_kind: rule.kind,
        disposition: DocDisposition::Omitted,
        importance: rule.importance,
        doc_ref: rule.place.display(),
        resolved_path: None,
        bytes: None,
        sha256: None,
        downgraded_reason: None,
        omitted_reason,
    };
    if let Ok(p) = path {
        if let DocFile::Found { bytes, sha256 } = file {
            d.resolved_path = Some(p.clone());
            d.bytes = Some(*bytes);
            d.sha256 = Some(sha256.clone());
            match rule.kind {
                DocKind::Point => {
                    d.disposition = DocDisposition::Pointed;
                },
                DocKind::Include => {
                    let limit: u64 = match rule.max_bytes {
                        Some(v) => min_budget(v, budgets.max_doc_bytes),
                        None => budgets.max_doc_bytes,
                    };
                    if *bytes > limit {
                        d.disposition = DocDisposition::Pointed;
                        d.downgraded_reason = Some("doc_too_large".to_owned());
                    } else if add_capped(total, *bytes) > budgets.max_total_bytes {
                        d.disposition = DocDisposition::Pointed;
                        d.downgraded_reason = Some("total_budget_exceeded".to_owned());
                    } else {
                        d.disposition = DocDisposition::Included;
                    }
                },
            }
        }
    }
    d
}

/// The larger of a sum that machine numbers hold.
fn add_capped(a: u64, b: u64) -> (r: u64)
    ensures
        r == capped_sum(a, b),
{
    if a > u64::MAX - b {
        u64::MAX
    } else {
        a + b
    }
}

/// The plan for documents.
fn plan_docs(
    rules: &Vec<DocRule<String>>,
    files: &Vec<DocFile<String>>,
    repo_root: &str,
    repo_bindings: &Vec<DispatchRepoBindingConfig>,
    budgets: DocBudgets,
) -> (r: (Vec<DocPlanDoc>, Vec<String>))
    requires
        files@.len() == rules@.len(),
    ensures
        ({
            let d = docs_planned(
                rule_views(rules@),
                file_views(files@),
                repo_root@,
                repo_bindings@,
                budgets,
            );
            doc_views(r.0@) == d.docs && views(r.1@) == d.warnings
        }),
{
    let ghost all = rule_views(rules@);
    let ghost facts = file_views(files@);
    let mut docs: Vec<DocPlanDoc> = Vec::new();
    let mut warnings: Vec<String> = Vec::new();
    let mut total: u64 = 0;
    let mut i: usize = 0;
    proof {
        assert(all.take(0) =~= Seq::<DocRule<Seq<char>>>::empty());
        assert(doc_views(docs@) =~= Seq::<PlannedDoc<Seq<char>>>::empty());
        assert(views(warnings@) =~= Seq::<Seq<char>>::empty());
    }
    while i < rules.len()
        invariant
            i <= rules@.len(),
            files@.len() == rules@.len(),
            all == rule_views(rules@),
            facts == file_views(files@),
            docs_planned(all.take(i as int), facts, repo_root@, repo_bindings@, budgets) == (
            DocState {
                docs: doc_views(docs@),
                total,
                warnings: views(warnings@),
            }),
        decreases rules.len() - i,
    {
        proof {
            assert(all.take(i + 1).last() == all[i as int]);
            assert(all.take(i + 1).drop_last() =~= all.take(i as int));
            assert(facts[i as int] == file_view(files@[i as int]));
        }
        let path = resolve_doc_ref(repo_root, repo_bindings, &rules[i].place);
        let d = plan_doc(&rules[i], &path, &files[i], budgets, total);
        if let DocDisposition::Included = d.disposition {
            if let Some(b) = d.bytes {
                total = add_capped(total, b);
            }
        }
        if let Some(m) = &d.omitted_reason {
            let w = cat3(d.doc_ref.as_str(), ": ", m.as_str());
            add_text(&mut warnings, w);
        }
        let ghost before = docs@;
        docs.push(d);
        proof {
            assert(doc_views(docs@) =~= doc_views(before).push(doc_view(d)));
        }
        i = i + 1;
    }
    proof {
        assert(all.take(i as int) =~= all);
    }
    (docs, warnings)
}

/// What a plan carries stays within its budget, and each document within its own.
pub proof fn law_budgets_are_kept(
    rules: Seq<DocRule<Seq<char>>>,
    files: Seq<DocFile<Seq<char>>>,
    root: Seq<char>,
    bindings: Seq<DispatchRepoBindingConfig>,
    budgets: DocBudgets,
)
    ensures
        ({
            let p = docs_planned(rules, files, root, bindings, budgets);
            &&& p.total <= budgets.max_total_bytes
            &&& p.docs.len() == rules.len()
            &&& forall|k: int|
                0 <= k < p.docs.len() && (#[trigger] p.docs[k]).disposition
                    == DocDisposition::Included ==> p.docs[k].bytes is Some && p.docs[k].bytes->0
                    <= budgets.max_doc_bytes && p.docs[k].desired_kind == DocKind::Include
        }),
    decreases rules.len(),
{
    if rules.len() > 0 {
        law_budgets_are_kept(rules.drop_last(), files, root, bindings, budgets);
    }
}

/// A document with its text, as a prompt carries it.
pub open spec fn carried(doc_ref: Seq<char>, content: Seq<char>) -> Seq<char> {
    "- `"@ + doc_ref + "`\n\n```text\n"@ + content + (if content.len() > 0 && content.last() == '\n' {
        Seq::empty()
    } else {
        "\n"@
    }) + "```\n\n"@
}

/// The text of a document for a prompt, or why it cannot be carried after all.
pub open spec fn carried_or_not(
    d: PlannedDoc<Seq<char>>,
    content: Result<Seq<char>, Seq<char>>,
    root: Seq<char>,
    bindings: Seq<DispatchRepoBindingConfig>,
) -> Result<Seq<char>, Seq<char>> {
    match place_of(d.doc_ref) {
        Err(m) => Err(d.doc_ref + ": "@ + m),
        Ok(p) => match place_path(root, bindings, p) {
            Err(m) => Err(d.doc_ref + ": "@ + m),
            Ok(_) => match content {
                Err(m) => Err(d.doc_ref + ": "@ + m),
                Ok(t) => Ok(carried(d.doc_ref, t)),
            },
        },
    }
}

/// The document is carried.
pub open spec fn is_carried(d: PlannedDoc<Seq<char>>) -> bool {
    d.disposition == DocDisposition::Included && d.resolved_path is Some
}

/// The document is pointed to.
pub open spec fn is_pointed(d: PlannedDoc<Seq<char>>) -> bool {
    d.disposition == DocDisposition::Pointed && d.resolved_path is Some
}

/// The line that points to a document.
pub open spec fn pointer(d: PlannedDoc<Seq<char>>) -> Option<Seq<char>> {
    match place_of(d.doc_ref) {
        Err(_) => None,
        Ok(Place::Workdir { path }) => Some("Read `"@ + path + "` in this repo."@),
        Ok(Place::Repo { owner, repo, path }) => Some(
            "Read `"@ + path + "` in `"@ + repo_text(owner, repo) + "`."@,
        ),
    }
}

/// What the prompt says of documents, in its two parts, and the warnings that come with it.
#[verifier::ext_equal]
pub struct MarkdownState {
    pub any_carried: bool,
    pub any_pointed: bool,
    pub carried: Seq<char>,
    pub pointed: Seq<char>,
    pub warnings: Seq<Seq<char>>,
}

/// The two parts for documents and their texts, one by one.
pub open spec fn markdown_parts(
    docs: Seq<PlannedDoc<Seq<char>>>,
    contents: Seq<Result<Seq<char>, Seq<char>>>,
    root: Seq<char>,
    bindings: Seq<DispatchRepoBindingConfig>,
) -> MarkdownState
    decreases docs.len(),
{
    if docs.len() == 0 {
        MarkdownState {
            any_carried: false,
            any_pointed: false,
            carried: Seq::empty(),
            pointed: Seq::empty(),
            warnings: Seq::empty(),
        }
    } else {
        let b = markdown_parts(docs.drop_last(), contents, root, bindings);
        let d = docs.last();
        if is_carried(d) {
            match carried_or_not(d, contents[docs.len() - 1], root, bindings) {
                Ok(t) => MarkdownState { any_carried: true, carried: b.carried + t, ..b },
                Err(w) => MarkdownState { any_carried: true, warnings: b.warnings.push(w), ..b },
            }
        } else if is_pointed(d) {
            match pointer(d) {
                Some(p) => MarkdownState {
                    any_pointed: true,
                    pointed: b.pointed + ("- "@ + p + "\n"@),
                    ..b
                },
                None => MarkdownState { any_pointed: true, ..b },
            }
        } else {
            b
        }
    }
}

/// What the prompt says of documents.
pub open spec fn markdown_of(m: MarkdownState) -> Seq<char> {
    if !m.any_carried && !m.any_pointed {
        Seq::empty()
    } else {
        "## Reading material\n\n"@ + (if m.any_carried {
            "Included:\n"@ + m.carried + "\n"@
        } else {
            Seq::empty()
        }) + (if m.any_pointed {
            "Pointers:\n"@ + m.pointed + "\n"@
        } else {
            Seq::empty()
        })
    }
}

/// The views of results of two texts.
pub open spec fn content_views(v: Seq<Result<String, String>>) -> Seq<Result<Seq<char>, Seq<char>>> {
    v.map_values(|r: Result<String, String>| text_result(r))
}

/// The text of a document for a prompt, or why it cannot be carried after all.
fn resolve_for_render(
    d: &DocPlanDoc,
    content: &Result<String, String>,
    repo_root: &str,
    repo_bindings: &Vec<DispatchRepoBindingConfig>,
) -> (r: Result<String, String>)
    ensures
        text_result(r) == carried_or_not(
            doc_view(*d),
            text_result(*content),
            repo_root@,
            repo_bindings@,
        ),
{
    let place = match DocRef::parse(d.doc_ref.as_str()) {
        Ok(p) => p,
        Err(e) => {
            return Err(cat3(d.doc_ref.as_str(), ": ", e.as_str()));
        },
    };
    if let Err(e) = resolve_doc_ref(repo_root, repo_bindings, &place) {
        return Err(cat3(d.doc_ref.as_str(), ": ", e.as_str()));
    }
    match content {
        Err(e) => Err(cat3(d.doc_ref.as_str(), ": ", e.as_str())),
        Ok(t) => {
            let mut m = cat4("- `", d.doc_ref.as_str(), "`\n\n```text\n", t.as_str());
            let n: usize = t.as_str().unicode_len();
            let ends = n > 0 && t.as_str().get_char(n - 1) == '\n';
            if !ends {
                m.append("\n");
            } else {
                proof {
                    assert(m@ + Seq::<char>::empty() =~= m@);
                }
            }
            m.append("```\n\n");
            Ok(m)
        },
    }
}

/// The line that points to a document.
pub fn doc_ref_pointer(doc: &DocPlanDoc) -> (r: Option<String>)
    ensures
        opt_view(r) == pointer(doc_view(*doc)),
{
    match DocRef::parse(doc.doc_ref.as_str()) {
        Err(_) => None,
        Ok(p) => match p {
            Place::Workdir { path } => Some(cat3("Read `", path.as_str(), "` in this repo.")),
            Place::Repo { owner, repo, path } => {
                let full = cat3(owner.as_str(), "/", repo.as_str());
                Some(cat5("Read `", path.as_str(), "` in `", full.as_str(), "`."))
            },
        },
    }
}

/// What the prompt says of documents, and the warnings that come with it.
pub fn render_reading_material_markdown(
    docs: &Vec<DocPlanDoc>,
    contents: &Vec<Result<String, String>>,
    repo_root: &str,
    repo_bindings: &Vec<DispatchRepoBindingConfig>,
) -> (r: (String, Vec<String>))
    requires
        contents@.len() == docs@.len(),
    ensures
        ({
            let m = markdown_parts(
                doc_views(docs@),
                content_views(contents@),
                repo_root@,
                repo_bindings@,
            );
            r.0@ == markdown_of(m) && views(r.1@) == m.warnings
        }),
{
    let ghost all = doc_views(docs@);
    let ghost texts = content_views(contents@);
    let mut any_carried = false;
    let mut any_pointed = false;
    let mut carried_text = String::new();
    let mut pointed_text = String::new();
    let mut warnings: Vec<String> = Vec::new();
    let mut i: usize = 0;
    proof {
        assert(all.take(0) =~= Seq::<PlannedDoc<Seq<char>>>::empty());
        assert(carried_text@ =~= Seq::<char>::empty());
        assert(views(warnings@) =~= Seq::<Seq<char>>::empty());
    }
    while i < docs.len()
        invariant
            i <= docs@.len(),
            contents@.len() == docs@.len(),
            all == doc_views(docs@),
            texts == content_views(contents@),
            markdown_parts(all.take(i as int), texts, repo_root@, repo_bindings@) == (
            MarkdownState {
                any_carried,
                any_pointed,
                carried: carried_text@,
                pointed: pointed_text@,
                warnings: views(warnings@),
            }),
        decreases docs.len() - i,
    {
        proof {
            assert(all.take(i + 1).last() == all[i as int]);
            assert(all.take(i + 1).drop_last() =~= all.take(i as int));
            assert(texts[i as int] == text_result(contents@[i as int]));
        }
        let d = &docs[i];
        if d.disposition == DocDisposition::Included && d.resolved_path.is_some() {
            any_carried = true;
            match resolve_for_render(d, &contents[i], repo_root, repo_bindings) {
                Ok(t) => {
                    carried_text.append(t.as_str());
                },
                Err(w) => {
                    add_text(&mut warnings, w);
                },
            }
        } else if d.disposition == DocDisposition::Pointed && d.resolved_path.is_some() {
            any_pointed = true;
            if let Some(p) = doc_ref_pointer(d) {
                let line = cat3("- ", p.as_str(), "\n");
                pointed_text.append(line.as_str());
            }
        }
        i = i + 1;
    }
    proof {
        assert(all.take(i as int) =~= all);
    }
    if !any_carried && !any_pointed {
        let none = String::new();
        proof {
            assert(none@ =~= Seq::<char>::empty());
        }
        return (none, warnings);
    }
    let mut out = "## Reading material\n\n".to_owned();
    let ghost m0 = out@;
    if any_carried {
        let part = cat3("Included:\n", carried_text.as_str(), "\n");
        out.append(part.as_str());
    } else {
        proof {
            assert(m0 + Seq::<char>::empty() =~= m0);
        }
    }
    let ghost m1 = out@;
    if any_pointed {
        let part = cat3("Pointers:\n", pointed_text.as_str(), "\n");
        out.append(part.as_str());
    } else {
        proof {
            assert(m1 + Seq::<char>::empty() =~= m1);
        }
    }
    (out, warnings)
}

/// The rules that apply to a prompt, before anything is read.
pub struct ReadingCandidates {
    pub budgets: DocBudgets,
    pub rules: Vec<DocRule<String>>,
    pub warnings: Vec<String>,
}

/// The budgets of two sets of rules: the smaller of each.
pub open spec fn joint_budgets(
    global: ReadingMaterialSpecSet,
    repo: Option<ReadingMaterialSpecSet>,
) -> DocBudgets {
    match repo {
        Some(r) => DocBudgets {
            max_doc_bytes: least(global.max_doc_bytes, r.max_doc_bytes),
            max_total_bytes: least(global.max_total_bytes, r.max_total_bytes),
        },
        None => DocBudgets {
            max_doc_bytes: least(global.max_doc_bytes, DEFAULT_MAX_DOC_BYTES),
            max_total_bytes: least(global.max_total_bytes, DEFAULT_MAX_TOTAL_BYTES),
        },
    }
}

/// The rules of the repository.
pub open spec fn repo_rules(repo: Option<ReadingMaterialSpecSet>) -> Seq<ReadingMaterialRuleSpec> {
    match repo {
        Some(r) => r.rule@,
        None => Seq::empty(),
    }
}

/// The rules that apply, in order, one for each document.
pub open spec fn applying(
    global: ReadingMaterialSpecSet,
    repo: Option<ReadingMaterialSpecSet>,
    role: Seq<char>,
    directive: Seq<char>,
) -> Seq<DocRule<Seq<char>>> {
    first_rules(
        rules_sorted(
            layer_read(RuleLayer::Global, global.rule@, role, directive).0 + layer_read(
                RuleLayer::Repo,
                repo_rules(repo),
                role,
                directive,
            ).0,
        ),
    )
}

/// The warnings about the rules.
pub open spec fn rule_warnings(
    global: ReadingMaterialSpecSet,
    repo: Option<ReadingMaterialSpecSet>,
    repo_error: Option<Seq<char>>,
    role: Seq<char>,
    directive: Seq<char>,
) -> Seq<Seq<char>> {
    (match repo_error {
        Some(e) => seq!["repo config: "@ + e],
        None => Seq::empty(),
    }) + layer_read(RuleLayer::Global, global.rule@, role, directive).1 + layer_read(
        RuleLayer::Repo,
        repo_rules(repo),
        role,
        directive,
    ).1
}

/// The rules that apply to a fresh prompt: those of all repositories and those of the repository, where
/// they could be read.
pub fn reading_candidates(
    global: &ReadingMaterialSpecSet,
    repo: &Option<ReadingMaterialSpecSet>,
    repo_error: &Option<String>,
    role: &str,
    directive: &str,
) -> (r: ReadingCandidates)
    ensures
        r.budgets == joint_budgets(*global, *repo),
        rule_views(r.rules@) == applying(*global, *repo, norm(role@), norm(directive@)),
        views(r.warnings@) == rule_warnings(
            *global,
            *repo,
            opt_view(*repo_error),
            norm(role@),
            norm(directive@),
        ),
{
    let role = str_norm(role);
    let directive = str_norm(directive);
    let budgets = match repo {
        Some(r) => DocBudgets {
            max_doc_bytes: min_budget(global.max_doc_bytes, r.max_doc_bytes),
            max_total_bytes: min_budget(global.max_total_bytes, r.max_total_bytes),
        },
        None => DocBudgets {
            max_doc_bytes: min_budget(global.max_doc_bytes, DEFAULT_MAX_DOC_BYTES),
            max_total_bytes: min_budget(global.max_total_bytes, DEFAULT_MAX_TOTAL_BYTES),
        },
    };
    let mut warnings: Vec<String> = Vec::new();
    proof {
        assert(views(warnings@) =~= Seq::<Seq<char>>::empty());
    }
    if let Some(e) = repo_error {
        let w = cat2("repo config: ", e.as_str());
        add_text(&mut warnings, w);
        proof {
            assert(views(warnings@) =~= seq!["repo config: "@ + e@]);
        }
    }
    let (mut rules, mut more) = read_layer(
        RuleLayer::Global,
        &global.rule,
        role.as_str(),
        directive.as_str(),
    );
    let none: Vec<ReadingMaterialRuleSpec> = Vec::new();
    let (mut repo_part, mut repo_more) = match repo {
        Some(r) => read_layer(RuleLayer::Repo, &r.rule, role.as_str(), directive.as_str()),
        None => read_layer(RuleLayer::Repo, &none, role.as_str(), directive.as_str()),
    };
    let ghost w0 = warnings@;
    let ghost w1 = more@;
    let ghost w2 = repo_more@;
    let ghost r1 = rules@;
    let ghost r2 = repo_part@;
    proof {
        assert(none@ =~= repo_rules(None));
    }
    warnings.append(&mut more);
    warnings.append(&mut repo_more);
    rules.append(&mut repo_part);
    proof {
        assert(views(warnings@) =~= views(w0) + views(w1) + views(w2));
        assert(rule_views(rules@) =~= rule_views(r1) + rule_views(r2));
    }
    let sorted = sort_rules(&rules);
    ReadingCandidates { budgets, rules: keep_first(&sorted), warnings }
}

/// A plan for the documents of a prompt.
pub struct DocPlan {
    pub version: u32,
    pub role: String,
    pub directive: String,
    pub prompt_mode: String,
    pub budgets: DocBudgets,
    pub docs: Vec<DocPlanDoc>,
    pub warnings: Vec<String>,
}

/// What the prompt says of documents, and the plan behind it.
pub struct ReadingMaterialOutcome {
    pub markdown: String,
    pub doc_plan: DocPlan,
}

/// What a prompt says of documents where its mode settles it: only a fresh prompt tells of any, and what
/// that is takes the rules of the repository.
pub fn settled_reading_material(
    global: &ReadingMaterialSpecSet,
    role: &str,
    directive: &str,
    prompt_mode: &str,
) -> (r: Option<ReadingMaterialOutcome>)
    ensures
        r is None <==> prompt_mode@ == "fresh"@,
        r matches Some(x) ==> {
            &&& x.markdown@ == Seq::<char>::empty()
            &&& x.doc_plan.version == 1
            &&& x.doc_plan.role@ == norm(role@)
            &&& x.doc_plan.directive@ == norm(directive@)
            &&& x.doc_plan.prompt_mode@ == prompt_mode@
            &&& x.doc_plan.budgets == (DocBudgets {
                max_doc_bytes: global.max_doc_bytes,
                max_total_bytes: global.max_total_bytes,
            })
            &&& x.doc_plan.docs@ == Seq::<DocPlanDoc>::empty()
            &&& x.doc_plan.warnings@ == Seq::<String>::empty()
        },
{
    if str_eq(prompt_mode, "fresh") {
        return None;
    }
    let markdown = String::new();
    proof {
        assert(markdown@ =~= Seq::<char>::empty());
    }
    Some(
        ReadingMaterialOutcome {
            markdown,
            doc_plan: DocPlan {
                version: 1,
                role: str_norm(role),
                directive: str_norm(directive),
                prompt_mode: prompt_mode.to_owned(),
                budgets: DocBudgets {
                    max_doc_bytes: global.max_doc_bytes,
                    max_total_bytes: global.max_total_bytes,
                },
                docs: Vec::new(),
                warnings: Vec::new(),
            },
        },
    )
}

/// What a fresh prompt says of documents: each is carried where its rule asks for that and the budgets
/// allow it, else pointed to, and left out with a warning where it cannot be had.
pub fn build_reading_material(
    candidates: ReadingCandidates,
    role: &str,
    directive: &str,
    repo_root: &str,
    repo_bindings: &Vec<DispatchRepoBindingConfig>,
    files: &Vec<DocFile<String>>,
    contents: &Vec<Result<String, String>>,
) -> (r: ReadingMaterialOutcome)
    requires
        files@.len() == candidates.rules@.len(),
        contents@.len() == candidates.rules@.len(),
    ensures
        ({
            let p = docs_planned(
                rule_views(candidates.rules@),
                file_views(files@),
                repo_root@,
                repo_bindings@,
                candidates.budgets,
            );
            let m = markdown_parts(
                p.docs,
                content_views(contents@),
                repo_root@,
                repo_bindings@,
            );
            &&& r.markdown@ == markdown_of(m)
            &&& r.doc_plan.version == 1
            &&& r.doc_plan.role@ == norm(role@)
            &&& r.doc_plan.directive@ == norm(directive@)
            &&& r.doc_plan.prompt_mode@ == "fresh"@
            &&& r.doc_plan.budgets == candidates.budgets
            &&& doc_views(r.doc_plan.docs@) == p.docs
            &&& views(r.doc_plan.warnings@) == views(candidates.warnings@) + p.warnings + m.warnings
        }),
{
    let budgets = candidates.budgets;
    let (docs, mut doc_warnings) = plan_docs(
        &candidates.rules,
        files,
        repo_root,
        repo_bindings,
        budgets,
    );
    proof {
        law_budgets_are_kept(
            rule_views(candidates.rules@),
            file_views(files@),
            repo_root@,
            repo_bindings@,
            budgets,
        );
        assert(doc_views(docs@).len() == docs@.len());
        assert(rule_views(candidates.rules@).len() == candidates.rules@.len());
    }
    let (markdown, mut render_warnings) = render_reading_material_markdown(
        &docs,
        contents,
        repo_root,
        repo_bindings,
    );
    let mut warnings = clone_list(&candidates.warnings);
    let ghost w0 = warnings@;
    let ghost w1 = doc_warnings@;
    let ghost w2 = render_warnings@;
    warnings.append(&mut doc_warnings);
    warnings.append(&mut render_warnings);
    proof {
        assert(views(warnings@) =~= views(w0) + views(w1) + views(w2));
    }
    ReadingMaterialOutcome {
        markdown,
        doc_plan: DocPlan {
            version: 1,
            role: str_norm(role),
            directive: str_norm(directive),
            prompt_mode: "fresh".to_owned(),
            budgets,
            docs,
            warnings,
        },
    }
}

/// No document has two rules among those that are kept.
pub proof fn law_each_document_once(v: Seq<DocRule<Seq<char>>>, i: int, j: int)
    requires
        0 <= i < j < first_rules(v).len(),
    ensures
        shown(first_rules(v)[i].place) != shown(first_rules(v)[j].place),
    decreases v.len(),
{
    if v.len() > 0 {
        let before = first_rules(v.drop_last());
        let key = shown(v.last().place);
        if names_doc(before, key) || j < before.len() {
            law_each_document_once(v.drop_last(), i, j);
        } else {
            assert(first_rules(v)[i] == before[i]);
            if shown(before[i].place) == key {
                assert(names_doc(before, key));
            }
        }
    }
}

/// Every document that a rule is for is kept.
pub proof fn law_no_document_is_lost(v: Seq<DocRule<Seq<char>>>, i: int)
    requires
        0 <= i < v.len(),
    ensures
        names_doc(first_rules(v), shown(v[i].place)),
    decreases v.len(),
{
    let before = first_rules(v.drop_last());
    let key = shown(v[i].place);
    if i < v.len() - 1 {
        law_no_document_is_lost(v.drop_last(), i);
        assert(v.drop_last()[i] == v[i]);
        let k = choose|k: int| 0 <= k < before.len() && shown((#[trigger] before[k]).place) == key;
        assert(first_rules(v)[k] == before[k]);
    } else if !names_doc(before, key) {
        assert(first_rules(v)[before.len() as int] == v[i]);
    }
}

/// The order of rules is strict and total on where they stand.
proof fn lemma_rule_order(a: DocRule<Seq<char>>, b: DocRule<Seq<char>>, c: DocRule<Seq<char>>)
    ensures
        rule_before(a, b) ==> !rule_before(b, a),
        !rule_before(b, a) && !rule_before(c, b) ==> !rule_before(c, a),
{
    let x = shown(a.place);
    let y = shown(b.place);
    let z = shown(c.place);
    lemma_text_lt_irreflexive(x);
    lemma_text_lt_irreflexive(y);
    lemma_text_lt_irreflexive(z);
    if text_lt(x, y) && text_lt(y, x) {
        lemma_text_lt_transitive(x, y, x);
    }
    lemma_text_lt_total(x, y);
    lemma_text_lt_total(y, z);
    lemma_text_lt_total(x, z);
    if text_lt(z, x) && text_lt(x, y) {
        lemma_text_lt_transitive(z, x, y);
    }
    if text_lt(y, z) && text_lt(z, x) {
        lemma_text_lt_transitive(y, z, x);
    }
}

/// Rules that stand in order.
pub open spec fn rules_in_order(v: Seq<DocRule<Seq<char>>>) -> bool {
    forall|i: int, j: int| 0 <= i < j < v.len() ==> !rule_before(#[trigger] v[j], #[trigger] v[i])
}

/// Inserting a rule keeps the order, and what is last is the rule or was last before.
proof fn lemma_rule_placed_in_order(v: Seq<DocRule<Seq<char>>>, x: DocRule<Seq<char>>)
    requires
        rules_in_order(v),
    ensures
        rules_in_order(rule_placed(v, x)),
        rule_placed(v, x).len() == v.len() + 1,
        forall|k: int|
            0 <= k < rule_placed(v, x).len() ==> (#[trigger] rule_placed(v, x)[k]) == x || v.contains(
                rule_placed(v, x)[k],
            ),
    decreases v.len(),
{
    let r = rule_placed(v, x);
    if v.len() > 0 && rule_before(x, v.last()) {
        let t = v.drop_last();
        lemma_rule_placed_in_order(t, x);
        let p = rule_placed(t, x);
        assert forall|i: int, j: int| 0 <= i < j < r.len() implies !rule_before(
            #[trigger] r[j],
            #[trigger] r[i],
        ) by {
            if j == r.len() - 1 {
                assert(r[i] == p[i]);
                if p[i] == x {
                    lemma_rule_order(x, v.last(), v.last());
                } else {
                    let k = choose|k: int| 0 <= k < t.len() && t[k] == p[i];
                    assert(v[k] == p[i]);
                }
            } else {
                assert(r[i] == p[i] && r[j] == p[j]);
            }
        }
        assert forall|k: int| 0 <= k < r.len() implies (#[trigger] r[k]) == x || v.contains(r[k]) by {
            if k < p.len() {
                assert(r[k] == p[k]);
                if p[k] != x {
                    let m = choose|m: int| 0 <= m < t.len() && t[m] == p[k];
                    assert(v[m] == r[k]);
                }
            } else {
                assert(v[v.len() - 1] == r[k]);
            }
        }
    } else {
        assert forall|i: int, j: int| 0 <= i < j < r.len() implies !rule_before(
            #[trigger] r[j],
            #[trigger] r[i],
        ) by {
            if j == r.len() - 1 {
                let l = v.last();
                assert(r[i] == v[i]);
                if i < v.len() - 1 {
                    assert(!rule_before(v[v.len() - 1], v[i]));
                    lemma_rule_order(v[i], l, x);
                }
            }
        }
        assert forall|k: int| 0 <= k < r.len() implies (#[trigger] r[k]) == x || v.contains(r[k]) by {
            if k < v.len() {
                assert(v[k] == r[k]);
            }
        }
    }
}

/// The rules that apply stand in order: those of all repositories before those of the repository, then
/// by their order, then by their documents; and none is added or lost.
pub proof fn law_rules_are_sorted(v: Seq<DocRule<Seq<char>>>)
    ensures
        rules_in_order(rules_sorted(v)),
        rules_sorted(v).to_multiset() == v.to_multiset(),
    decreases v.len(),
{
    broadcast use vstd::seq_lib::group_to_multiset_ensures;

    if v.len() > 0 {
        let before = rules_sorted(v.drop_last());
        law_rules_are_sorted(v.drop_last());
        lemma_rule_placed_in_order(before, v.last());
        lemma_rule_placed_adds_one(before, v.last());
        assert(v.drop_last().push(v.last()) =~= v);
    } else {
        assert(rules_sorted(v) =~= v);
    }
}

/// Inserting a rule adds it and nothing else.
proof fn lemma_rule_placed_adds_one(v: Seq<DocRule<Seq<char>>>, x: DocRule<Seq<char>>)
    ensures
        rule_placed(v, x).to_multiset() == v.to_multiset().insert(x),
    decreases v.len(),
{
    broadcast use vstd::seq_lib::group_to_multiset_ensures;

    if v.len() > 0 && rule_before(x, v.last()) {
        lemma_rule_placed_adds_one(v.drop_last(), x);
        assert(v.drop_last().push(v.last()) =~= v);
        assert(rule_placed(v, x).to_multiset() =~= v.to_multiset().insert(x));
    }
}

/// The list of selectors has a star or the value, in any case and with blanks around it.
pub open spec fn selects(list: Seq<Seq<char>>, value: Seq<char>) -> bool {
    exists|i: int|
        0 <= i < list.len() && (norm(#[trigger] list[i]) == "*"@ || norm(list[i]) == norm(value))
}

/// The list of selectors can be read: it has entries, and none is blank unless a star stands before it.
pub open spec fn readable(list: Seq<Seq<char>>) -> bool {
    list.len() > 0 && forall|i: int|
        0 <= i < list.len() && norm(#[trigger] list[i]).len() == 0 ==> exists|j: int|
            0 <= j < i && norm(#[trigger] list[j]) == "*"@
}

/// What selectors choose beside those that were read.
proof fn lemma_chosen_after(
    done: Set<Seq<char>>,
    rest: Seq<Seq<char>>,
    label: Seq<char>,
    value: Seq<char>,
)
    ensures
        chosen_after(done, rest, label) matches Ok(c) ==> (takes(c, value) <==> done.contains(
            norm(value),
        ) || selects(rest, value)),
        chosen_after(done, rest, label) is Ok <==> forall|i: int|
            0 <= i < rest.len() && norm(#[trigger] rest[i]).len() == 0 ==> exists|j: int|
                0 <= j < i && norm(#[trigger] rest[j]) == "*"@,
    decreases rest.len(),
{
    reveal_strlit("*");
    if rest.len() > 0 {
        let t = rest.drop_first();
        let first = norm(rest[0]);
        if first.len() == 0 {
            assert(norm(rest[0]).len() == 0);
        } else if first == "*"@ {
            assert(selects(rest, value)) by {
                assert(norm(rest[0]) == "*"@);
            }
            assert forall|i: int| 0 <= i < rest.len() && norm(#[trigger] rest[i]).len() == 0 implies exists|
                j: int,
            |
                0 <= j < i && norm(#[trigger] rest[j]) == "*"@ by {
                assert(norm(rest[0]) == "*"@);
            }
        } else {
            lemma_chosen_after(done.insert(first), t, label, value);
            assert forall|i: int| 0 <= i < t.len() implies #[trigger] t[i] == rest[i + 1] by {}
            assert(selects(rest, value) <==> first == norm(value) || selects(t, value)) by {
                if selects(t, value) {
                    let i = choose|i: int|
                        0 <= i < t.len() && (norm(#[trigger] t[i]) == "*"@ || norm(t[i]) == norm(
                            value,
                        ));
                    assert(rest[i + 1] == t[i]);
                }
                if selects(rest, value) {
                    let i = choose|i: int|
                        0 <= i < rest.len() && (norm(#[trigger] rest[i]) == "*"@ || norm(rest[i])
                            == norm(value));
                    if i > 0 {
                        assert(t[i - 1] == rest[i]);
                    }
                }
                if first == norm(value) {
                    assert(norm(rest[0]) == norm(value));
                }
            }
            let fine = |v: Seq<Seq<char>>|
                forall|i: int|
                    0 <= i < v.len() && norm(#[trigger] v[i]).len() == 0 ==> exists|j: int|
                        0 <= j < i && norm(#[trigger] v[j]) == "*"@;
            if fine(t) {
                assert forall|i: int|
                    0 <= i < rest.len() && norm(#[trigger] rest[i]).len() == 0 implies exists|j: int|
                    0 <= j < i && norm(#[trigger] rest[j]) == "*"@ by {
                    assert(t[i - 1] == rest[i]);
                    let j = choose|j: int| 0 <= j < i - 1 && norm(#[trigger] t[j]) == "*"@;
                    assert(rest[j + 1] == t[j]);
                }
            }
            if fine(rest) {
                assert forall|i: int|
                    0 <= i < t.len() && norm(#[trigger] t[i]).len() == 0 implies exists|j: int|
                    0 <= j < i && norm(#[trigger] t[j]) == "*"@ by {
                    assert(rest[i + 1] == t[i]);
                    let j = choose|j: int| 0 <= j < i + 1 && norm(#[trigger] rest[j]) == "*"@;
                    assert(j > 0);
                    assert(t[j - 1] == rest[j]);
                }
            }
        }
    }
}

/// A rule is read as it is written: its kind, importance, document, order and limit, and whom it is for.
/// It cannot be read where a word is not known, its reference names no document or a list of selectors is
/// empty or has a blank entry.
pub proof fn law_rules_read_as_written(
    spec: ReadingMaterialRuleSpec,
    layer: RuleLayer,
    source: Seq<char>,
    role: Seq<char>,
    directive: Seq<char>,
)
    ensures
        rule_read(spec, layer, source) is Ok <==> (norm(spec.kind@) == "include"@ || norm(spec.kind@)
            == "point"@) && (norm(spec.importance@) == "required"@ || norm(spec.importance@)
            == "recommended"@) && place_of(spec.reference@) is Ok && readable(views(spec.roles@))
            && readable(views(spec.directives@)),
        rule_read(spec, layer, source) matches Ok(x) ==> {
            &&& x.0.layer == layer
            &&& x.0.kind == DocKind::Include <==> norm(spec.kind@) == "include"@
            &&& x.0.importance == DocImportance::Required <==> norm(spec.importance@) == "required"@
            &&& Ok::<Place<Seq<char>>, Seq<char>>(x.0.place) == place_of(spec.reference@)
            &&& x.0.order == spec.order
            &&& x.0.max_bytes == spec.max_bytes
            &&& takes(x.1, role) <==> selects(views(spec.roles@), role)
            &&& takes(x.2, directive) <==> selects(views(spec.directives@), directive)
        },
{
    lemma_chosen_after(Set::empty(), views(spec.roles@), "roles"@, role);
    lemma_chosen_after(Set::empty(), views(spec.directives@), "directives"@, directive);
    reveal_strlit("include");
    reveal_strlit("point");
    reveal_strlit("required");
    reveal_strlit("recommended");
    assert("include"@.len() != "point"@.len());
    assert("required"@.len() != "recommended"@.len());
}

/// A rule applies exactly where it can be read and both its selectors of roles and its selectors of
/// directives choose the prompt: by a star, or by the role and the directive themselves.
pub proof fn law_rules_apply_by_their_selectors(
    layer: RuleLayer,
    specs: Seq<ReadingMaterialRuleSpec>,
    role: Seq<char>,
    directive: Seq<char>,
)
    ensures
        forall|x: DocRule<Seq<char>>| #[trigger]
            layer_read(layer, specs, role, directive).0.contains(x) <==> exists|k: int|
                0 <= k < specs.len() && (rule_read(
                    #[trigger] specs[k],
                    layer,
                    source_name(layer, k as nat),
                ) matches Ok(t) && t.0 == x) && selects(views(specs[k].roles@), role) && selects(
                    views(specs[k].directives@),
                    directive,
                ),
        forall|m: Seq<char>| #[trigger]
            layer_read(layer, specs, role, directive).1.contains(m) <==> exists|k: int|
                0 <= k < specs.len() && rule_read(
                    #[trigger] specs[k],
                    layer,
                    source_name(layer, k as nat),
                ) == Err::<(DocRule<Seq<char>>, Choice, Choice), Seq<char>>(m),
    decreases specs.len(),
{
    let all = layer_read(layer, specs, role, directive);
    if specs.len() > 0 {
        let t = specs.drop_last();
        let n = t.len() as int;
        let before = layer_read(layer, t, role, directive);
        let last = specs.last();
        law_rules_apply_by_their_selectors(layer, t, role, directive);
        law_rules_read_as_written(last, layer, source_name(layer, n as nat), role, directive);
        assert(specs[n] == last);
        assert forall|x: DocRule<Seq<char>>| #[trigger] all.0.contains(x) <==> exists|k: int|
            0 <= k < specs.len() && (rule_read(
                #[trigger] specs[k],
                layer,
                source_name(layer, k as nat),
            ) matches Ok(t) && t.0 == x) && selects(views(specs[k].roles@), role) && selects(
                views(specs[k].directives@),
                directive,
            ) by {
            if before.0.contains(x) {
                let k = choose|k: int|
                    0 <= k < t.len() && (rule_read(
                        #[trigger] t[k],
                        layer,
                        source_name(layer, k as nat),
                    ) matches Ok(u) && u.0 == x) && selects(views(t[k].roles@), role) && selects(
                        views(t[k].directives@),
                        directive,
                    );
                assert(specs[k] == t[k]);
                let i = choose|i: int| 0 <= i < before.0.len() && before.0[i] == x;
                assert(all.0[i] == x);
            }
            if all.0.contains(x) && !before.0.contains(x) {
                let i = choose|i: int| 0 <= i < all.0.len() && all.0[i] == x;
                if i < before.0.len() {
                    assert(before.0[i] == x);
                }
                assert(specs[n] == last);
            }
            if exists|k: int|
                0 <= k < specs.len() && (rule_read(
                    #[trigger] specs[k],
                    layer,
                    source_name(layer, k as nat),
                ) matches Ok(t) && t.0 == x) && selects(views(specs[k].roles@), role) && selects(
                    views(specs[k].directives@),
                    directive,
                ) {
                let k = choose|k: int|
                    0 <= k < specs.len() && (rule_read(
                        #[trigger] specs[k],
                        layer,
                        source_name(layer, k as nat),
                    ) matches Ok(t) && t.0 == x) && selects(views(specs[k].roles@), role) && selects(
                        views(specs[k].directives@),
                        directive,
                    );
                if k < n {
                    assert(t[k] == specs[k]);
                    assert(before.0.contains(x));
                } else {
                    assert(all.0 == before.0.push(x));
                    assert(all.0[before.0.len() as int] == x);
                }
            }
        }
        assert forall|m: Seq<char>| #[trigger] all.1.contains(m) <==> exists|k: int|
            0 <= k < specs.len() && rule_read(
                #[trigger] specs[k],
                layer,
                source_name(layer, k as nat),
            ) == Err::<(DocRule<Seq<char>>, Choice, Choice), Seq<char>>(m) by {
            if before.1.contains(m) {
                let k = choose|k: int|
                    0 <= k < t.len() && rule_read(
                        #[trigger] t[k],
                        layer,
                        source_name(layer, k as nat),
                    ) == Err::<(DocRule<Seq<char>>, Choice, Choice), Seq<char>>(m);
                assert(specs[k] == t[k]);
                let i = choose|i: int| 0 <= i < before.1.len() && before.1[i] == m;
                assert(all.1[i] == m);
            }
            if all.1.contains(m) && !before.1.contains(m) {
                let i = choose|i: int| 0 <= i < all.1.len() && all.1[i] == m;
                if i < before.1.len() {
                    assert(before.1[i] == m);
                }
                assert(specs[n] == last);
            }
            if exists|k: int|
                0 <= k < specs.len() && rule_read(
                    #[trigger] specs[k],
                    layer,
                    source_name(layer, k as nat),
                ) == Err::<(DocRule<Seq<char>>, Choice, Choice), Seq<char>>(m) {
                let k = choose|k: int|
                    0 <= k < specs.len() && rule_read(
                        #[trigger] specs[k],
                        layer,
                        source_name(layer, k as nat),
                    ) == Err::<(DocRule<Seq<char>>, Choice, Choice), Seq<char>>(m);
                if k < n {
                    assert(t[k] == specs[k]);
                    assert(before.1.contains(m));
                } else {
                    assert(all.1[before.1.len() as int] == m);
                }
            }
        }
    }
}

/// What is kept of rules is among them, and stands where no rule for its document stood before it.
proof fn lemma_first_rules(v: Seq<DocRule<Seq<char>>>, i: int)
    requires
        0 <= i < first_rules(v).len(),
    ensures
        exists|k: int|
            0 <= k < v.len() && #[trigger] v[k] == first_rules(v)[i] && forall|j: int|
                0 <= j < k ==> shown((#[trigger] v[j]).place) != shown(v[k].place),
    decreases v.len(),
{
    if v.len() > 0 {
        let t = v.drop_last();
        let before = first_rules(t);
        if i < before.len() {
            lemma_first_rules(t, i);
            let k = choose|k: int|
                0 <= k < t.len() && #[trigger] t[k] == before[i] && forall|j: int|
                    0 <= j < k ==> shown((#[trigger] t[j]).place) != shown(t[k].place);
            assert(v[k] == t[k]);
            assert forall|j: int| 0 <= j < k implies shown((#[trigger] v[j]).place) != shown(
                v[k].place,
            ) by {
                assert(t[j] == v[j]);
            }
        } else {
            let k = v.len() - 1;
            assert(v[k] == first_rules(v)[i]);
            assert forall|j: int| 0 <= j < k implies shown((#[trigger] v[j]).place) != shown(
                v[k].place,
            ) by {
                law_no_document_is_lost(t, j);
                assert(t[j] == v[j]);
            }
        }
    }
}

/// The rule that applies to a document is one of those that were read, and none of the others for it
/// comes before: the rules of all repositories win over those of the repository, and the lower order wins
/// within one of the two.
pub proof fn law_the_first_rule_of_a_document_wins(
    global: ReadingMaterialSpecSet,
    repo: Option<ReadingMaterialSpecSet>,
    role: Seq<char>,
    directive: Seq<char>,
)
    ensures
        ({
            let read = layer_read(RuleLayer::Global, global.rule@, role, directive).0 + layer_read(
                RuleLayer::Repo,
                repo_rules(repo),
                role,
                directive,
            ).0;
            let kept = applying(global, repo, role, directive);
            &&& forall|i: int| 0 <= i < kept.len() ==> read.contains(#[trigger] kept[i])
            &&& forall|x: DocRule<Seq<char>>| #[trigger]
                read.contains(x) ==> exists|i: int|
                    0 <= i < kept.len() && shown((#[trigger] kept[i]).place) == shown(x.place) && (
                    kept[i].layer == RuleLayer::Global || x.layer == RuleLayer::Repo) && (kept[i].layer
                        == x.layer ==> kept[i].order <= x.order)
            &&& forall|i: int, j: int|
                0 <= i < j < kept.len() ==> shown((#[trigger] kept[i]).place) != shown(
                    (#[trigger] kept[j]).place,
                ) && (kept[i].layer == RuleLayer::Global || kept[j].layer == RuleLayer::Repo) && (
                kept[i].layer == kept[j].layer ==> kept[i].order <= kept[j].order)
        }),
{
    broadcast use vstd::seq_lib::group_to_multiset_ensures;

    let read = layer_read(RuleLayer::Global, global.rule@, role, directive).0 + layer_read(
        RuleLayer::Repo,
        repo_rules(repo),
        role,
        directive,
    ).0;
    let sorted = rules_sorted(read);
    let kept = applying(global, repo, role, directive);
    law_rules_are_sorted(read);
    assert forall|x: DocRule<Seq<char>>| #[trigger] read.contains(x) <==> sorted.contains(x) by {
        assert(read.contains(x) <==> read.to_multiset().count(x) > 0);
        assert(sorted.contains(x) <==> sorted.to_multiset().count(x) > 0);
    }
    assert forall|i: int| 0 <= i < kept.len() implies read.contains(#[trigger] kept[i]) by {
        lemma_first_rules(sorted, i);
        assert(sorted.contains(kept[i]));
    }
    assert forall|x: DocRule<Seq<char>>| #[trigger] read.contains(x) implies exists|i: int|
        0 <= i < kept.len() && shown((#[trigger] kept[i]).place) == shown(x.place) && (kept[i].layer
            == RuleLayer::Global || x.layer == RuleLayer::Repo) && (kept[i].layer == x.layer
            ==> kept[i].order <= x.order) by {
        assert(sorted.contains(x));
        let m = choose|m: int| 0 <= m < sorted.len() && sorted[m] == x;
        law_no_document_is_lost(sorted, m);
        let i = choose|i: int|
            0 <= i < kept.len() && shown((#[trigger] kept[i]).place) == shown(x.place);
        lemma_first_rules(sorted, i);
        let k = choose|k: int|
            0 <= k < sorted.len() && #[trigger] sorted[k] == kept[i] && forall|j: int|
                0 <= j < k ==> shown((#[trigger] sorted[j]).place) != shown(sorted[k].place);
        assert(k <= m);
        if k < m {
            assert(!rule_before(sorted[m], sorted[k]));
        }
        assert(shown(kept[i].place) == shown(x.place));
    }
    assert forall|i: int, j: int| 0 <= i < j < kept.len() implies shown((#[trigger] kept[i]).place)
        != shown((#[trigger] kept[j]).place) && (kept[i].layer == RuleLayer::Global || kept[j].layer
        == RuleLayer::Repo) && (kept[i].layer == kept[j].layer ==> kept[i].order <= kept[j].order) by {
        law_each_document_once(sorted, i, j);
        lemma_first_rules_in_order(sorted, i, j);
    }
}

/// What is kept of rules stays in their order.
proof fn lemma_first_rules_in_order(v: Seq<DocRule<Seq<char>>>, i: int, j: int)
    requires
        rules_in_order(v),
        0 <= i < j < first_rules(v).len(),
    ensures
        !rule_before(first_rules(v)[j], first_rules(v)[i]),
    decreases v.len(),
{
    if v.len() > 0 {
        let t = v.drop_last();
        let before = first_rules(t);
        assert forall|a: int, b: int| 0 <= a < b < t.len() implies !rule_before(
            #[trigger] t[b],
            #[trigger] t[a],
        ) by {
            assert(t[a] == v[a] && t[b] == v[b]);
        }
        if j < before.len() {
            lemma_first_rules_in_order(t, i, j);
        } else {
            lemma_first_rules(t, i);
            let k = choose|k: int| 0 <= k < t.len() && #[trigger] t[k] == before[i];
            assert(v[k] == t[k]);
            assert(first_rules(v)[j] == v[v.len() - 1]);
            assert(first_rules(v)[i] == before[i]);
            assert(!rule_before(v[v.len() - 1], v[k]));
        }
    }
}

/// How much of documents is carried by those of the plan.
pub open spec fn bytes_carried(docs: Seq<PlannedDoc<Seq<char>>>) -> int
    decreases docs.len(),
{
    if docs.len() == 0 {
        0
    } else {
        bytes_carried(docs.drop_last()) + (if docs.last().disposition == DocDisposition::Included {
            docs.last().bytes->0 as int
        } else {
            0
        })
    }
}

/// A document is carried exactly where its file is there, its rule asks for that, and neither its own
/// limit, nor that of one document, nor what is left for all of them is exceeded; it is pointed to
/// otherwise. One that cannot be had is left out, with a warning that names it. Each document of the plan
/// is that of the rule in its place.
pub proof fn law_documents_are_carried_within_the_budgets(
    rules: Seq<DocRule<Seq<char>>>,
    files: Seq<DocFile<Seq<char>>>,
    root: Seq<char>,
    bindings: Seq<DispatchRepoBindingConfig>,
    budgets: DocBudgets,
    k: int,
)
    requires
        0 <= k < rules.len(),
        budgets.max_total_bytes < u64::MAX,
    ensures
        ({
            let docs = docs_planned(rules, files, root, bindings, budgets).docs;
            let d = docs[k];
            let there = place_path(root, bindings, rules[k].place) is Ok && files[k] is Found;
            &&& docs.len() == rules.len()
            &&& d.doc_ref == shown(rules[k].place)
            &&& d.layer == rules[k].layer
            &&& d.order == rules[k].order
            &&& d.importance == rules[k].importance
            &&& d.desired_kind == rules[k].kind
            &&& d.disposition == DocDisposition::Omitted <==> !there
            &&& !there ==> d.omitted_reason is Some && d.resolved_path is None
                && docs_planned(rules, files, root, bindings, budgets).warnings.contains(
                shown(rules[k].place) + ": "@ + d.omitted_reason->0,
            )
            &&& there ==> {
                let bytes = files[k]->bytes;
                &&& d.bytes == Some(bytes)
                &&& d.sha256 == Some(files[k]->sha256)
                &&& d.resolved_path == Some(place_path(root, bindings, rules[k].place)->Ok_0)
                &&& d.omitted_reason is None
                &&& d.disposition == DocDisposition::Included <==> rules[k].kind == DocKind::Include
                    && bytes <= budgets.max_doc_bytes && (rules[k].max_bytes matches Some(m) ==> bytes
                    <= m) && bytes_carried(docs.take(k)) + bytes <= budgets.max_total_bytes
                &&& d.downgraded_reason is Some <==> rules[k].kind == DocKind::Include
                    && d.disposition != DocDisposition::Included
            }
        }),
    decreases rules.len(),
{
    let p = docs_planned(rules, files, root, bindings, budgets);
    let t = rules.drop_last();
    let b = docs_planned(t, files, root, bindings, budgets);
    lemma_bytes_carried(t, files, root, bindings, budgets);
    law_budgets_are_kept(t, files, root, bindings, budgets);
    law_budgets_are_kept(rules, files, root, bindings, budgets);
    assert(p.docs.drop_last() =~= b.docs);
    if k < t.len() {
        law_documents_are_carried_within_the_budgets(t, files, root, bindings, budgets, k);
        assert(p.docs[k] == b.docs[k]);
        assert(p.docs.take(k) =~= b.docs.take(k));
        assert(t[k] == rules[k]);
        if p.docs[k].disposition == DocDisposition::Omitted {
            let w = shown(rules[k].place) + ": "@ + p.docs[k].omitted_reason->0;
            let i = choose|i: int| 0 <= i < b.warnings.len() && b.warnings[i] == w;
            assert(p.warnings[i] == w);
        }
    } else {
        assert(p.docs.take(k) =~= b.docs);
        if p.docs[k].disposition == DocDisposition::Omitted {
            assert(p.warnings[b.warnings.len() as int] == shown(rules[k].place) + ": "@
                + p.docs[k].omitted_reason->0);
        }
    }
}

/// The total of a plan is what its documents carry.
proof fn lemma_bytes_carried(
    rules: Seq<DocRule<Seq<char>>>,
    files: Seq<DocFile<Seq<char>>>,
    root: Seq<char>,
    bindings: Seq<DispatchRepoBindingConfig>,
    budgets: DocBudgets,
)
    requires
        budgets.max_total_bytes < u64::MAX,
    ensures
        docs_planned(rules, files, root, bindings, budgets).total == bytes_carried(
            docs_planned(rules, files, root, bindings, budgets).docs,
        ),
    decreases rules.len(),
{
    if rules.len() > 0 {
        lemma_bytes_carried(rules.drop_last(), files, root, bindings, budgets);
        law_budgets_are_kept(rules.drop_last(), files, root, bindings, budgets);
        let p = docs_planned(rules, files, root, bindings, budgets);
        assert(p.docs.drop_last() =~= docs_planned(
            rules.drop_last(),
            files,
            root,
            bindings,
            budgets,
        ).docs);
    }
}

/// Where two sets of rules meet, the smaller budget of each kind holds; without rules of the repository
/// the usual budgets stand in for its own.
pub proof fn law_the_smaller_budget_holds(
    global: ReadingMaterialSpecSet,
    repo: Option<ReadingMaterialSpecSet>,
)
    ensures
        ({
            let b = joint_budgets(global, repo);
            let other = match repo {
                Some(r) => (r.max_doc_bytes, r.max_total_bytes),
                None => (262_144, 1_048_576),
            };
            &&& b.max_doc_bytes <= global.max_doc_bytes
            &&& b.max_doc_bytes <= other.0
            &&& b.max_doc_bytes == global.max_doc_bytes || b.max_doc_bytes == other.0
            &&& b.max_total_bytes <= global.max_total_bytes
            &&& b.max_total_bytes <= other.1
            &&& b.max_total_bytes == global.max_total_bytes || b.max_total_bytes == other.1
        }),
{
}

/// A reference names a path below the working directory or below a repository; the path leads nowhere
/// above it.
pub proof fn law_references_name_what_they_say(raw: Seq<char>)
    ensures
        place_of(raw) matches Ok(p) ==> match p {
            Place::Workdir { path } => "workdir:"@.is_prefix_of(trim(raw)) && path == trim(
                trim(raw).skip("workdir:"@.len() as int),
            ) && path_fault(trim(raw).skip("workdir:"@.len() as int)) is None,
            Place::Repo { owner, repo, path } => "repo:"@.is_prefix_of(trim(raw)) && (split_once(
                trim(raw).skip("repo:"@.len() as int),
                ':',
            ) matches Some(x) && repo_parts(x.0) == Some((owner, repo)) && path == trim(x.1)
                && path_fault(x.1) is None),
        },
        trim(raw).len() == 0 ==> place_of(raw) is Err,
        !"workdir:"@.is_prefix_of(trim(raw)) && !"repo:"@.is_prefix_of(trim(raw)) ==> place_of(
            raw,
        ) is Err,
{
}

/// A document of the working directory is below that, and one of a repository below its local checkout;
/// without a binding it cannot be had.
pub proof fn law_documents_are_where_their_place_is(
    root: Seq<char>,
    bindings: Seq<DispatchRepoBindingConfig>,
    owner: Seq<char>,
    repo: Seq<char>,
    path: Seq<char>,
    k: int,
)
    requires
        0 <= k <= bindings.len(),
        k < bindings.len() ==> bindings[k].repo@ == owner + "/"@ + repo,
        forall|j: int| 0 <= j < k ==> (#[trigger] bindings[j]).repo@ != owner + "/"@ + repo,
    ensures
        place_path(root, bindings, Place::Workdir { path }) == Ok::<Seq<char>, Seq<char>>(
            joined(root, path),
        ),
        k < bindings.len() ==> place_path(root, bindings, Place::Repo { owner, repo, path }) == Ok::<
            Seq<char>,
            Seq<char>,
        >(joined(bindings[k].local_path@, path)),
        k == bindings.len() ==> place_path(root, bindings, Place::Repo { owner, repo, path }) is Err,
{
    crate::text::lemma_first_at_is(binding_repos(binding_views(bindings)), owner + "/"@ + repo, k);
}

/// The prompt says something of documents exactly where one is carried or pointed to. A document that is
/// pointed to is named where it is; one that is carried has its text behind its name, or a warning where
/// the text could not be read; and one that is left out is not told of.
pub proof fn law_planned_documents_are_told(
    docs: Seq<PlannedDoc<Seq<char>>>,
    contents: Seq<Result<Seq<char>, Seq<char>>>,
    root: Seq<char>,
    bindings: Seq<DispatchRepoBindingConfig>,
    d: PlannedDoc<Seq<char>>,
    path: Seq<char>,
)
    requires
        d.resolved_path is Some,
        place_of(d.doc_ref) == Ok::<Place<Seq<char>>, Seq<char>>(Place::Workdir { path }),
    ensures
        ({
            let m = markdown_parts(docs, contents, root, bindings);
            let n = markdown_parts(docs.push(d), contents, root, bindings);
            &&& d.disposition == DocDisposition::Omitted ==> n == m
            &&& d.disposition == DocDisposition::Pointed ==> n.pointed == m.pointed + "- Read `"@ + path
                + "` in this repo.\n"@ && n.carried == m.carried && n.warnings == m.warnings
                && n.any_pointed
            &&& d.disposition == DocDisposition::Included ==> n.pointed == m.pointed && n.any_carried
                && match contents[docs.len() as int] {
                Ok(t) => n.warnings == m.warnings && m.carried.is_prefix_of(n.carried) && n.carried
                    == m.carried + "- `"@ + d.doc_ref + "`\n\n```text\n"@ + t + (if t.len() > 0
                    && t.last() == '\n' {
                    "```\n\n"@
                } else {
                    "\n```\n\n"@
                }),
                Err(e) => n.warnings == m.warnings.push(d.doc_ref + ": "@ + e) && n.carried
                    == m.carried,
            }
            &&& markdown_of(m) == Seq::<char>::empty() <==> !m.any_carried && !m.any_pointed
        }),
{
    let m = markdown_parts(docs, contents, root, bindings);
    let n = markdown_parts(docs.push(d), contents, root, bindings);
    assert(docs.push(d).drop_last() =~= docs);
    assert(docs.push(d).last() == d);
    reveal_strlit("- ");
    reveal_strlit("Read `");
    reveal_strlit("- Read `");
    reveal_strlit("` in this repo.");
    reveal_strlit("` in this repo.\n");
    reveal_strlit("\n");
    reveal_strlit("```\n\n");
    reveal_strlit("\n```\n\n");
    reveal_strlit("## Reading material\n\n");
    assert("- "@ + ("Read `"@ + path + "` in this repo."@) + "\n"@ =~= "- Read `"@ + path
        + "` in this repo.\n"@);
    if d.disposition == DocDisposition::Pointed {
        assert(n.pointed =~= m.pointed + "- Read `"@ + path + "` in this repo.\n"@);
    }
    if d.disposition == DocDisposition::Included {
        if let Ok(t) = contents[docs.len() as int] {
            assert("\n"@ + "```\n\n"@ =~= "\n```\n\n"@);
            let end = if t.len() > 0 && t.last() == '\n' {
                "```\n\n"@
            } else {
                "\n```\n\n"@
            };
            assert(carried(d.doc_ref, t) =~= "- `"@ + d.doc_ref + "`\n\n```text\n"@ + t + end);
            assert(n.carried =~= m.carried + "- `"@ + d.doc_ref + "`\n\n```text\n"@ + t + end);
        }
    }
    if m.any_carried || m.any_pointed {
        assert(markdown_of(m).len() > 0);
    }
}

/// Warnings come in their order: that the config of the repository could not be read, those on the global
/// rules, and those on the rules of the repository.
pub proof fn law_warnings_come_in_order(
    global: ReadingMaterialSpecSet,
    repo: Option<ReadingMaterialSpecSet>,
    error: Seq<char>,
    role: Seq<char>,
    directive: Seq<char>,
)
    ensures
        ({
            let plain = rule_warnings(global, repo, None, role, directive);
            &&& rule_warnings(global, repo, Some(error), role, directive) == seq![
                "repo config: "@ + error,
            ] + plain
            &&& layer_read(RuleLayer::Global, global.rule@, role, directive).1.is_prefix_of(plain)
            &&& repo matches Some(r) ==> layer_read(
                RuleLayer::Repo,
                r.rule@,
                role,
                directive,
            ).1.is_suffix_of(plain)
        }),
{
    let plain = rule_warnings(global, repo, None, role, directive);
    let a = layer_read(RuleLayer::Global, global.rule@, role, directive).1;
    let b = layer_read(RuleLayer::Repo, repo_rules(repo), role, directive).1;
    assert(plain =~= a + b);
    assert(plain.take(a.len() as int) =~= a);
    assert(plain.subrange(plain.len() - b.len(), plain.len() as int) =~= b);
    assert(rule_warnings(global, repo, Some(error), role, directive) =~= seq!["repo config: "@ + error]
        + plain);
}

} // verus!
