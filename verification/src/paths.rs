//! Paths as texts with `/` between their components.

use crate::text::{chars_of, split, str_eq, str_split, str_starts_with, str_strip_prefix, views};
use vstd::prelude::*;
use vstd::string::*;

verus! {

pub const DEFAULT_DISPATCH_CONFIG: &'static str = "config/orchd-dispatch.toml";

/// Tells whether the path begins at the root.
pub open spec fn absolute(p: Seq<char>) -> bool {
    p.len() > 0 && p[0] == '/'
}

/// `rel` below `base`; an absolute `rel` stands for itself.
pub open spec fn joined(base: Seq<char>, rel: Seq<char>) -> Seq<char> {
    if absolute(rel) {
        rel
    } else if base.len() > 0 && base.last() != '/' {
        base + "/"@ + rel
    } else {
        base + rel
    }
}

/// The path without what names no component at its end: slashes and `.` segments.
pub open spec fn without_tail(p: Seq<char>) -> Seq<char>
    decreases p.len(),
{
    if p.len() >= 2 && (p.last() == '/' || (p.last() == '.' && p[p.len() - 2] == '/')) {
        without_tail(p.drop_last())
    } else {
        p
    }
}

/// The index behind the last slash, zero where there is none.
pub open spec fn after_last_slash(p: Seq<char>) -> int
    decreases p.len(),
{
    if p.len() == 0 {
        0
    } else if p.last() == '/' {
        p.len() as int
    } else {
        after_last_slash(p.drop_last())
    }
}

/// The path without its last component; the root and the empty path have no parent.
pub open spec fn parent_of(p: Seq<char>) -> Option<Seq<char>> {
    let t = without_tail(p);
    if t.len() == 0 || t == "/"@ {
        None
    } else {
        Some(without_tail(t.take(after_last_slash(t))))
    }
}

/// Tells whether the path begins at the root.
pub fn is_absolute(p: &str) -> (r: bool)
    ensures
        r == absolute(p@),
{
    proof {
        reveal_strlit("/");
        assert("/"@ =~= seq!['/']);
        if p@.len() > 0 {
            assert(p@.subrange(0, 1) =~= seq![p@[0]]);
            assert(seq![p@[0]] == seq!['/'] ==> seq![p@[0]][0] == '/');
        }
    }
    str_starts_with(p, "/")
}

/// `rel` below `base`; an absolute `rel` stands for itself.
pub fn join_path(base: &str, rel: &str) -> (r: String)
    ensures
        r@ == joined(base@, rel@),
{
    if is_absolute(rel) {
        return rel.to_owned();
    }
    let cs = chars_of(base);
    let mut out = base.to_owned();
    if cs.len() > 0 && cs[cs.len() - 1] != '/' {
        out.append("/");
    }
    out.append(rel);
    out
}

/// `p` without what names no component at its end.
fn tailless<'a>(p: &'a str) -> (r: &'a str)
    ensures
        r@ == without_tail(p@),
{
    let cs = chars_of(p);
    let mut j: usize = cs.len();
    proof {
        assert(p@.take(j as int) =~= p@);
    }
    while j >= 2 && (cs[j - 1] == '/' || (cs[j - 1] == '.' && cs[j - 2] == '/'))
        invariant
            j <= cs@.len(),
            cs@ == p@,
            without_tail(p@) == without_tail(p@.take(j as int)),
        decreases j,
    {
        proof {
            assert(p@.take(j as int).drop_last() =~= p@.take(j - 1));
        }
        j = j - 1;
    }
    proof {
        assert(p@.subrange(0, j as int) =~= p@.take(j as int));
    }
    p.substring_char(0, j)
}

/// The path without its last component, where it has one.
pub fn path_parent(p: &str) -> (r: Option<String>)
    ensures
        crate::text::opt_view(r) == parent_of(p@),
{
    let t = tailless(p);
    if t.is_empty() || str_eq(t, "/") {
        return None;
    }
    let cs = chars_of(t);
    let mut j: usize = cs.len();
    proof {
        assert(t@.take(j as int) =~= t@);
    }
    while j > 0 && cs[j - 1] != '/'
        invariant
            j <= cs@.len(),
            cs@ == t@,
            after_last_slash(t@) == after_last_slash(t@.take(j as int)),
        decreases j,
    {
        proof {
            assert(t@.take(j as int).drop_last() =~= t@.take(j - 1));
        }
        j = j - 1;
    }
    proof {
        assert(t@.subrange(0, j as int) =~= t@.take(j as int));
    }
    Some(tailless(t.substring_char(0, j)).to_owned())
}

/// The path with a leading `~` component replaced by the home directory, which must then be known.
pub open spec fn expanded(p: Seq<char>, home: Option<Seq<char>>) -> Result<Seq<char>, Seq<char>> {
    if p == "~"@ {
        match home {
            Some(h) => Ok(h),
            None => Err("HOME is not set"@),
        }
    } else if "~/"@.is_prefix_of(p) {
        match home {
            Some(h) => Ok(joined(h, p.skip("~/"@.len() as int))),
            None => Err("HOME is not set"@),
        }
    } else {
        Ok(p)
    }
}

/// The view of a result of two texts.
pub open spec fn text_result(r: Result<String, String>) -> Result<Seq<char>, Seq<char>> {
    match r {
        Ok(x) => Ok(x@),
        Err(x) => Err(x@),
    }
}

/// Replaces a leading `~` component of `path` by `home`.
pub fn expand_tilde_path(path: &str, home: &Option<String>) -> (r: Result<String, String>)
    ensures
        text_result(r) == expanded(path@, crate::text::opt_view(*home)),
{
    if str_eq(path, "~") {
        return match home {
            Some(h) => Ok(h.clone()),
            None => Err("HOME is not set".to_owned()),
        };
    }
    match str_strip_prefix(path, "~/") {
        Some(rest) => match home {
            Some(h) => Ok(join_path(h.as_str(), rest)),
            None => Err("HOME is not set".to_owned()),
        },
        None => Ok(path.to_owned()),
    }
}

/// The directory that holds the default dispatch config: `SWARM_HOME`, or `swarm` below the home
/// directory.
pub open spec fn swarm_dir(
    swarm_home: Option<Seq<char>>,
    home: Option<Seq<char>>,
) -> Result<Seq<char>, Seq<char>> {
    match swarm_home {
        Some(s) => Ok(s),
        None => match home {
            Some(h) => Ok(joined(h, "swarm"@)),
            None => Err("HOME is not set"@),
        },
    }
}

/// The directory that holds the default dispatch config.
pub fn swarm_home_dir(swarm_home: &Option<String>, home: &Option<String>) -> (r: Result<
    String,
    String,
>)
    ensures
        text_result(r) == swarm_dir(
            crate::text::opt_view(*swarm_home),
            crate::text::opt_view(*home),
        ),
{
    match swarm_home {
        Some(s) => Ok(s.clone()),
        None => match home {
            Some(h) => Ok(join_path(h.as_str(), "swarm")),
            None => Err("HOME is not set".to_owned()),
        },
    }
}

/// What to look for on disk next when the dispatch config is resolved, or the path it resolves to.
pub enum ConfigPathStep {
    /// Look whether this path exists.
    Probe(String),
    /// The config is at this path.
    Settled(String),
}

/// The first step: the expanded path is looked for.
pub fn resolve_dispatch_config_path(raw: &str, home: &Option<String>) -> (r: Result<
    ConfigPathStep,
    String,
>)
    ensures
        match expanded(raw@, crate::text::opt_view(*home)) {
            Ok(p) => r matches Ok(ConfigPathStep::Probe(q)) && q@ == p,
            Err(m) => r matches Err(e) && e@ == m,
        },
{
    match expand_tilde_path(raw, home) {
        Ok(p) => Ok(ConfigPathStep::Probe(p)),
        Err(e) => Err(e),
    }
}

/// What an answer to the probe of `expanded_path` leads to. A path that exists is the config. For
/// the default config, one below the swarm directory is looked for next; else the path stands.
pub fn resolve_after_probe(
    raw: &str,
    expanded_path: &str,
    found: bool,
    swarm_home: &Option<String>,
    home: &Option<String>,
) -> (r: Result<ConfigPathStep, String>)
    ensures
        found || raw@ != "config/orchd-dispatch.toml"@ ==> (r matches Ok(
            ConfigPathStep::Settled(p),
        ) && p@ == expanded_path@),
        !found && raw@ == "config/orchd-dispatch.toml"@ ==> match swarm_dir(
            crate::text::opt_view(*swarm_home),
            crate::text::opt_view(*home),
        ) {
            Ok(d) => r matches Ok(ConfigPathStep::Probe(p)) && p@ == joined(
                d,
                "config/orchd-dispatch.toml"@,
            ),
            Err(m) => r matches Err(e) && e@ == m,
        },
{
    if found || !str_eq(raw, DEFAULT_DISPATCH_CONFIG) {
        return Ok(ConfigPathStep::Settled(expanded_path.to_owned()));
    }
    match swarm_home_dir(swarm_home, home) {
        Ok(dir) => Ok(
            ConfigPathStep::Probe(join_path(dir.as_str(), DEFAULT_DISPATCH_CONFIG)),
        ),
        Err(e) => Err(e),
    }
}

/// The path after the probe of the candidate below the swarm directory: the candidate where it
/// exists, else the expanded path.
pub fn resolve_after_fallback(expanded_path: &str, candidate: &str, found: bool) -> (r: String)
    ensures
        r@ == (if found { candidate@ } else { expanded_path@ }),
{
    if found {
        candidate.to_owned()
    } else {
        expanded_path.to_owned()
    }
}


/// Tells whether a segment of a path names a component.
pub open spec fn names_component(segment: Seq<char>) -> bool {
    segment.len() > 0 && segment != "."@
}

/// The components of a path.
pub open spec fn path_parts(p: Seq<char>) -> Seq<Seq<char>> {
    split(p, '/').filter(|s: Seq<char>| names_component(s))
}

/// Tells whether the path begins with the current directory.
pub open spec fn leads_with_dot(p: Seq<char>) -> bool {
    split(p, '/').len() > 0 && split(p, '/')[0] == "."@
}

/// Two texts are the same path: repeated slashes and inner `.` segments do not matter.
pub open spec fn same_path(a: Seq<char>, b: Seq<char>) -> bool {
    absolute(a) == absolute(b) && leads_with_dot(a) == leads_with_dot(b) && path_parts(a)
        == path_parts(b)
}

/// The components of a path.
pub fn parts_of(p: &str) -> (r: Vec<String>)
    ensures
        views(r@) == path_parts(p@),
{
    let segments = str_split(p, '/');
    let ghost all = views(segments@);
    let ghost keep = |s: Seq<char>| names_component(s);
    let mut out: Vec<String> = Vec::new();
    let mut i: usize = 0;
    proof {
        assert(views(out@) =~= all.take(0).filter(keep));
    }
    while i < segments.len()
        invariant
            i <= segments@.len(),
            all == views(segments@),
            keep == (|s: Seq<char>| names_component(s)),
            views(out@) == all.take(i as int).filter(keep),
        decreases segments.len() - i,
    {
        let ghost before = views(out@);
        proof {
            assert(all.take(i + 1).drop_last() =~= all.take(i as int));
            assert(all.take(i + 1).last() == segments@[i as int]@);
            reveal(Seq::filter);
        }
        let s = segments[i].as_str();
        if !s.is_empty() && !str_eq(s, ".") {
            out.push(segments[i].clone());
            proof {
                assert(views(out@) =~= before.push(segments@[i as int]@));
            }
        }
        i = i + 1;
    }
    proof {
        assert(all.take(all.len() as int) =~= all);
    }
    out
}

/// Tells whether two lists hold the same texts.
pub fn same_texts(a: &Vec<String>, b: &Vec<String>) -> (r: bool)
    ensures
        r == (views(a@) == views(b@)),
{
    if a.len() != b.len() {
        proof {
            assert(views(a@).len() != views(b@).len());
        }
        return false;
    }
    let mut i: usize = 0;
    while i < a.len()
        invariant
            i <= a@.len(),
            a@.len() == b@.len(),
            forall|k: int| 0 <= k < i ==> (#[trigger] a@[k])@ == b@[k]@,
        decreases a.len() - i,
    {
        if !str_eq(a[i].as_str(), b[i].as_str()) {
            proof {
                assert(views(a@)[i as int] != views(b@)[i as int]);
            }
            return false;
        }
        i = i + 1;
    }
    proof {
        assert(views(a@) =~= views(b@));
    }
    true
}

/// Tells whether the path begins with the current directory.
fn dot_first(p: &str) -> (r: bool)
    ensures
        r == leads_with_dot(p@),
{
    let segments = str_split(p, '/');
    proof {
        assert(segments@.len() == views(segments@).len());
    }
    if segments.len() == 0 {
        return false;
    }
    proof {
        assert(views(segments@)[0] == segments@[0]@);
    }
    str_eq(segments[0].as_str(), ".")
}

/// Tells whether two texts are the same path.
pub fn path_eq(a: &str, b: &str) -> (r: bool)
    ensures
        r == same_path(a@, b@),
{
    is_absolute(a) == is_absolute(b) && dot_first(a) == dot_first(b) && same_texts(
        &parts_of(a),
        &parts_of(b),
    )
}

/// A path of a config: relative to the directory of the config unless it is absolute.
pub open spec fn resolved(base: Seq<char>, raw: Seq<char>, home: Option<Seq<char>>) -> Result<
    Seq<char>,
    Seq<char>,
> {
    match expanded(raw, home) {
        Ok(p) => Ok(joined(base, p)),
        Err(e) => Err(e),
    }
}

/// Resolves a path of a config against the directory of the config.
pub fn resolve_config_path(base_dir: &str, raw: &str, home: &Option<String>) -> (r: Result<
    String,
    String,
>)
    ensures
        text_result(r) == resolved(base_dir@, raw@, crate::text::opt_view(*home)),
{
    match expand_tilde_path(raw, home) {
        Ok(p) => Ok(join_path(base_dir, p.as_str())),
        Err(e) => Err(e),
    }
}

/// Every path is the same as itself, and the order of two does not matter.
pub proof fn law_same_path_is_an_equivalence(a: Seq<char>, b: Seq<char>, c: Seq<char>)
    ensures
        same_path(a, a),
        same_path(a, b) ==> same_path(b, a),
        same_path(a, b) && same_path(b, c) ==> same_path(a, c),
{
}

/// A path below another stands behind it with a slash between; one that begins at the root stands for
/// itself.
pub proof fn law_paths_are_joined_with_one_slash(base: Seq<char>, rel: Seq<char>)
    ensures
        rel.len() > 0 && rel[0] == '/' ==> joined(base, rel) == rel,
        base.len() > 0 && base.last() != '/' && !(rel.len() > 0 && rel[0] == '/') ==> joined(base, rel)
            == base + "/"@ + rel && joined(base + "/"@, rel) == base + "/"@ + rel,
        !(rel.len() > 0 && rel[0] == '/') ==> joined(""@, rel) == rel,
{
    reveal_strlit("/");
    reveal_strlit("");
    assert(""@ + rel =~= rel);
}

/// The parent of a path below a directory is the directory.
pub proof fn law_parents_hold_their_files(dir: Seq<char>, name: Seq<char>)
    requires
        dir.len() > 0,
        dir.last() != '/',
        !(dir.len() >= 2 && dir.last() == '.' && dir[dir.len() - 2] == '/'),
        name.len() > 0,
        forall|i: int| 0 <= i < name.len() ==> #[trigger] name[i] != '/',
        name != "."@,
    ensures
        parent_of(dir + "/"@ + name) == Some(dir),
        parent_of("/"@) is None,
        parent_of(""@) is None,
{
    reveal_strlit("/");
    reveal_strlit("");
    reveal_strlit(".");
    let p = dir + "/"@ + name;
    assert(p.last() == name.last());
    assert(name.last() == name[name.len() - 1]);
    if p.last() == '.' && p[p.len() - 2] == '/' {
        if name.len() == 1 {
            assert(name =~= "."@);
        } else {
            assert(p[p.len() - 2] == name[name.len() - 2]);
        }
    }
    assert(without_tail(p) == p);
    assert(p != "/"@) by {
        assert(p.len() >= 3);
    }
    lemma_slash_in_front(dir, name);
    assert(p.take(dir.len() + 1 as int) =~= dir + "/"@);
    let d = dir + "/"@;
    assert(d.last() == '/');
    assert(d.drop_last() =~= dir);
    assert(without_tail(d) == without_tail(dir));
}

/// The last slash of a path is in front of its last component.
proof fn lemma_slash_in_front(dir: Seq<char>, name: Seq<char>)
    requires
        forall|i: int| 0 <= i < name.len() ==> #[trigger] name[i] != '/',
    ensures
        after_last_slash(dir + "/"@ + name) == dir.len() + 1,
    decreases name.len(),
{
    reveal_strlit("/");
    let p = dir + "/"@ + name;
    if name.len() == 0 {
        assert(p.last() == '/');
    } else {
        assert(p.last() == name[name.len() - 1]);
        let n = name.drop_last();
        assert forall|i: int| 0 <= i < n.len() implies #[trigger] n[i] != '/' by {
            assert(n[i] == name[i]);
        }
        lemma_slash_in_front(dir, n);
        assert(p.drop_last() =~= dir + "/"@ + n);
    }
}

/// A leading tilde stands for the home directory, and any other path for itself.
pub proof fn law_tildes_stand_for_home(p: Seq<char>, home: Seq<char>)
    ensures
        expanded("~"@, Some(home)) == Ok::<Seq<char>, Seq<char>>(home),
        expanded("~/"@ + p, Some(home)) == Ok::<Seq<char>, Seq<char>>(joined(home, p)),
        expanded("~"@, None) is Err,
        expanded("~/"@ + p, None) is Err,
        p.len() == 0 || p[0] != '~' ==> expanded(p, Some(home)) == Ok::<Seq<char>, Seq<char>>(p)
            && expanded(p, None) == Ok::<Seq<char>, Seq<char>>(p),
{
    reveal_strlit("~");
    reveal_strlit("~/");
    let t = "~/"@ + p;
    assert(t.take(2) =~= "~/"@);
    assert(t.skip(2) =~= p);
    assert(t != "~"@) by {
        assert(t.len() >= 2);
    }
    if p.len() == 0 || p[0] != '~' {
        assert(!"~/"@.is_prefix_of(p)) by {
            if "~/"@.is_prefix_of(p) {
                assert(p[0] == "~/"@[0]);
            }
        }
        assert(p != "~"@) by {
            if p == "~"@ {
                assert(p[0] == '~');
            }
        }
    }
}

/// The default config is below the directory that is set for it, or else below the home directory.
pub proof fn law_the_set_directory_wins(set: Option<Seq<char>>, home: Option<Seq<char>>)
    ensures
        set matches Some(s) ==> swarm_dir(set, home) == Ok::<Seq<char>, Seq<char>>(s),
        set is None ==> (home matches Some(h) ==> swarm_dir(set, home) == Ok::<Seq<char>, Seq<char>>(
            joined(h, "swarm"@),
        )),
        set is None && home is None ==> swarm_dir(set, home) is Err,
{
}

/// The components of two paths in a row are those of the one and those of the other; a name is a component,
/// and nothing and the current directory are none.
pub proof fn law_components_are_between_slashes(a: Seq<char>, b: Seq<char>)
    ensures
        path_parts(a + seq!['/'] + b) == path_parts(a) + path_parts(b),
        (forall|i: int| 0 <= i < a.len() ==> #[trigger] a[i] != '/') && a.len() > 0 && a != "."@
            ==> path_parts(a) == seq![a],
        path_parts(Seq::empty()) == Seq::<Seq<char>>::empty(),
        path_parts("."@) == Seq::<Seq<char>>::empty(),
{
    reveal_strlit(".");
    let keep = |s: Seq<char>| names_component(s);
    crate::text::law_parts_are_between_separators(a, b, '/');
    crate::text::law_parts_are_between_separators(Seq::empty(), b, '/');
    crate::text::law_parts_are_between_separators("."@, b, '/');
    Seq::filter_distributes_over_add(split(a, '/'), split(b, '/'), keep);
    reveal(Seq::filter);
    let none = Seq::<Seq<char>>::empty();
    assert(none.filter(keep) =~= none);
    assert forall|x: Seq<char>| #[trigger] seq![x].filter(keep) == (if keep(x) {
        seq![x]
    } else {
        none
    }) by {
        assert(seq![x].drop_last() =~= none);
        assert(seq![x].last() == x);
        assert(none.push(x) =~= seq![x]);
    }
}

/// Two paths are the same where both or neither begin at the root, both or neither with the current
/// directory, and their components are the same.
pub proof fn law_same_paths_have_the_same_components(a: Seq<char>, b: Seq<char>)
    ensures
        same_path(a, b) ==> path_parts(a) == path_parts(b) && ((a.len() > 0 && a[0] == '/') <==> (b.len()
            > 0 && b[0] == '/')),
        path_parts(a) == path_parts(b) && a.len() > 0 && b.len() > 0 && a[0] == '/' && b[0] == '/'
            ==> same_path(a, b),
{
    reveal_strlit(".");
    if a.len() > 0 && b.len() > 0 && a[0] == '/' && b[0] == '/' {
        assert(crate::text::split_after(Seq::empty(), a, '/')[0] == Seq::<char>::empty());
        assert(crate::text::split_after(Seq::empty(), b, '/')[0] == Seq::<char>::empty());
        assert(Seq::<char>::empty() != "."@) by {
            assert("."@.len() == 1);
        }
    }
}

} // verus!
