//! Roles: their names, ranks and credentials, and the configuration and card that a new one gets.

use crate::documents::{
    at, document_text, entries, flag_at, has_entry, list_of, list_texts, nested_has, nested_holds,
    parse_document, printed, push_text, put_list, put_table, put_texts, read_entries, table_flag,
    table_has, table_holds, table_like, text_map, with_table, Toml,
};
use crate::paths::{expand_tilde_path, expanded, join_path, joined, text_result};
use crate::rank_acl::{bullet_word, bullet_word_of, rank_token, rank_token_of};
use crate::text::{
    after_prefix, cat2, cat3, cat5, lines, norm, opt_is, opt_view, parse_unsigned, replaced,
    str_eq, str_lines, str_norm, str_replaced, str_starts_with, str_strip_prefix, str_trim, trim,
    unsigned_value, views,
};
use vstd::prelude::*;
use vstd::string::*;

verus! {

/// The program that runs a role, where nothing else is set.
pub const DEFAULT_CODEX_BIN: &'static str = "/home/main/forgejo-agent/bin/codex-role";

/// The template of a role card.
pub const DEFAULT_ROLE_TEMPLATE: &'static str = "templates/role-card-template.md";

/// Where the token of the owner is, which no role may use.
pub const OWNER_FALLBACK_TOKEN: &'static str = "~/.config/forgejo-agent/token";

/// A name without white space around it, in lower case.
pub fn normalize_name(raw: &str) -> (r: String)
    ensures
        r@ == norm(raw@),
{
    str_norm(raw)
}

/// Whom the forge takes a token for, in the normal form of names.
pub fn whoami_login_with_token(answer: Result<Option<String>, String>) -> (r: Result<
    String,
    String,
>)
    ensures
        match answer {
            Ok(Some(x)) => r matches Ok(y) && y@ == norm(x@),
            Ok(None) => r matches Err(e) && e@ == "whoami response missing login field"@,
            Err(x) => r matches Err(e) && e@ == x@,
        },
{
    match answer {
        Ok(Some(x)) => Ok(normalize_name(x.as_str())),
        Ok(None) => Err("whoami response missing login field".to_owned()),
        Err(x) => Err(x),
    }
}

/// A character that the name of a role may have.
pub open spec fn role_char(c: char) -> bool {
    ('a' <= c && c <= 'z') || ('A' <= c && c <= 'Z') || ('0' <= c && c <= '9') || c == '-' || c
        == '_'
}

/// The name of a role in its normal form, or what is wrong with it.
pub open spec fn role_name(raw: Seq<char>) -> Result<Seq<char>, Seq<char>> {
    let role = norm(raw);
    if role.len() == 0 {
        Err("role cannot be empty"@)
    } else if !"codex-"@.is_prefix_of(role) {
        Err("role must start with 'codex-' (got '"@ + role + "')"@)
    } else if exists|i: int| 0 <= i < role.len() && !role_char(#[trigger] role[i]) {
        Err("role contains unsupported characters: '"@ + role + "'"@)
    } else {
        Ok(role)
    }
}

/// The name of a role in its normal form.
pub fn normalize_role_name(raw: &str) -> (r: Result<String, String>)
    ensures
        text_result(r) == role_name(raw@),
{
    let role = normalize_name(raw);
    let text = role.as_str();
    if text.is_empty() {
        return Err("role cannot be empty".to_owned());
    }
    if !str_starts_with(text, "codex-") {
        return Err(cat3("role must start with 'codex-' (got '", text, "')"));
    }
    let n: usize = text.unicode_len();
    let mut i: usize = 0;
    while i < n
        invariant
            i <= n,
            n == text@.len(),
            text@ == norm(raw@),
            text@.len() > 0,
            "codex-"@.is_prefix_of(text@),
            forall|k: int| 0 <= k < i ==> role_char(#[trigger] text@[k]),
        decreases n - i,
    {
        let c = text.get_char(i);
        let good = (c >= 'a' && c <= 'z') || (c >= 'A' && c <= 'Z') || (c >= '0' && c <= '9') || c
            == '-' || c == '_';
        if !good {
            return Err(cat3("role contains unsupported characters: '", text, "'"));
        }
        i = i + 1;
    }
    Ok(role)
}

/// The rank in its normal form, or what is wrong with it.
pub open spec fn rank_name(raw: Seq<char>) -> Result<Seq<char>, Seq<char>> {
    match after_prefix(rank_token(raw), "OF-"@) {
        None => Err("rank must be OF-<n>, got '"@ + raw + "'"@),
        Some(digits) => match unsigned_value(digits, 255) {
            None => Err("invalid rank digits in '"@ + raw + "'"@),
            Some(_) => Ok(rank_token(raw)),
        },
    }
}

/// The rank in its normal form.
pub fn normalize_rank(raw: &str) -> (r: Result<String, String>)
    ensures
        text_result(r) == rank_name(raw@),
{
    let rank = rank_token_of(raw);
    let valid = match str_strip_prefix(rank.as_str(), "OF-") {
        None => {
            return Err(cat3("rank must be OF-<n>, got '", raw, "'"));
        },
        Some(digits) => parse_unsigned(digits, 255).is_some(),
    };
    if valid {
        Ok(rank)
    } else {
        Err(cat3("invalid rank digits in '", raw, "'"))
    }
}

/// The rank that a line of a role card gives, in its normal form.
pub open spec fn line_rank_name(line: Seq<char>) -> Option<Seq<char>> {
    match bullet_word(line) {
        Some(w) => match rank_name(w) {
            Ok(rank) => Some(rank),
            Err(_) => None,
        },
        None => None,
    }
}

/// The rank of the first line that gives one.
pub open spec fn card_rank_name(ls: Seq<Seq<char>>) -> Option<Seq<char>>
    decreases ls.len(),
{
    if ls.len() == 0 {
        None
    } else if line_rank_name(ls[0]) is Some {
        line_rank_name(ls[0])
    } else {
        card_rank_name(ls.drop_first())
    }
}

/// The rank that a role card gives, in its normal form.
pub fn parse_rank_from_role_card(role_card_md: &str) -> (r: Option<String>)
    ensures
        opt_view(r) == card_rank_name(lines(role_card_md@)),
{
    let ls = str_lines(role_card_md);
    let mut i: usize = 0;
    proof {
        assert(views(ls@).skip(0) =~= views(ls@));
    }
    while i < ls.len()
        invariant
            i <= ls@.len(),
            views(ls@) == lines(role_card_md@),
            card_rank_name(lines(role_card_md@)) == card_rank_name(views(ls@).skip(i as int)),
        decreases ls.len() - i,
    {
        proof {
            assert(views(ls@).skip(i as int)[0] == ls@[i as int]@);
            assert(views(ls@).skip(i as int).drop_first() =~= views(ls@).skip(i + 1));
        }
        if let Some(w) = bullet_word_of(ls[i].as_str()) {
            if let Ok(rank) = normalize_rank(w.as_str()) {
                return Some(rank);
            }
        }
        i = i + 1;
    }
    None
}

/// Tells whether the user of a role is to administer the forge.
pub fn expected_admin_for_role(role_name: &str) -> (r: bool)
    ensures
        r == (role_name@ == "main"@ || role_name@ == "codex-orch"@),
{
    str_eq(role_name, "main") || str_eq(role_name, "codex-orch")
}

/// Where the token of a role is: where it was said to be, or among the credentials below the home
/// directory.
pub open spec fn role_token_path(
    path: Option<Seq<char>>,
    role: Seq<char>,
    home: Option<Seq<char>>,
) -> Result<Seq<char>, Seq<char>> {
    match path {
        Some(p) => expanded(p, home),
        None => match expanded("~"@, home) {
            Ok(h) => Ok(joined(joined(h, ".config/forgejo-agent/creds"@), role + ".token"@)),
            Err(e) => Err(e),
        },
    }
}

/// Where the token of a role is.
pub fn resolve_role_token_path(path: &Option<String>, role: &str, home: &Option<String>) -> (r:
    Result<String, String>)
    ensures
        text_result(r) == role_token_path(opt_view(*path), role@, opt_view(*home)),
{
    match path {
        Some(p) => expand_tilde_path(p.as_str(), home),
        None => match expand_tilde_path("~", home) {
            Ok(h) => {
                let dir = join_path(h.as_str(), ".config/forgejo-agent/creds");
                let file = cat2(role, ".token");
                Ok(join_path(dir.as_str(), file.as_str()))
            },
            Err(e) => Err(e),
        },
    }
}

/// Where the token of the owner is.
pub fn owner_fallback_token_path(home: &Option<String>) -> (r: Result<String, String>)
    ensures
        text_result(r) == expanded("~/.config/forgejo-agent/token"@, opt_view(*home)),
{
    expand_tilde_path(OWNER_FALLBACK_TOKEN, home)
}

/// The token that a file holds, without white space around it, or what is wrong with the file. `raw` is
/// what the file holds, None where it cannot be read.
pub open spec fn token_in(path: Seq<char>, raw: Option<Seq<char>>) -> Result<Seq<char>, Seq<char>> {
    match raw {
        None => Err("failed reading token file "@ + path),
        Some(t) => if trim(t).len() == 0 {
            Err("token file "@ + path + " is empty"@)
        } else {
            Ok(trim(t))
        },
    }
}

/// The token that a file holds.
pub fn read_token_file(path: &str, raw: &Option<String>) -> (r: Result<String, String>)
    ensures
        text_result(r) == token_in(path@, opt_view(*raw)),
{
    match raw {
        None => Err(cat2("failed reading token file ", path)),
        Some(t) => {
            let token = str_trim(t.as_str());
            if token.is_empty() {
                Err(cat3("token file ", path, " is empty"))
            } else {
                Ok(token.to_owned())
            }
        },
    }
}

/// The token that a file holds, where there is a file.
pub fn read_token_if_exists(path: &str, exists: bool, raw: &Option<String>) -> (r: Result<
    Option<String>,
    String,
>)
    ensures
        !exists ==> r == Ok::<Option<String>, String>(None),
        exists ==> match token_in(path@, opt_view(*raw)) {
            Ok(t) => r matches Ok(Some(x)) && x@ == t,
            Err(m) => r matches Err(e) && e@ == m,
        },
{
    if !exists {
        return Ok(None);
    }
    match read_token_file(path, raw) {
        Ok(t) => Ok(Some(t)),
        Err(e) => Err(e),
    }
}

/// Where the administrator's token is, which must be said.
pub fn read_admin_token(path: &Option<String>, home: &Option<String>) -> (r: Result<String, String>)
    ensures
        text_result(r) == (match opt_view(*path) {
            Some(p) => expanded(p, opt_view(*home)),
            None => Err("admin token file is required (use --admin-token-file)"@),
        }),
{
    match path {
        Some(p) => expand_tilde_path(p.as_str(), home),
        None => Err("admin token file is required (use --admin-token-file)".to_owned()),
    }
}

/// What the file of a token holds.
pub fn secret_token_text(token: &str) -> (r: String)
    ensures
        r@ == token@ + "\n"@,
{
    cat2(token, "\n")
}

/// The argument with which the agent runs as the role: as said, or the role without its prefix.
pub fn role_arg(said: &Option<String>, role: &str) -> (r: String)
    ensures
        r@ == (match *said {
            Some(a) => norm(a@),
            None => match after_prefix(role@, "codex-"@) {
                Some(rest) => rest,
                None => role@,
            },
        }),
{
    match said {
        Some(a) => normalize_name(a.as_str()),
        None => match str_strip_prefix(role, "codex-") {
            Some(rest) => rest.to_owned(),
            None => role.to_owned(),
        },
    }
}

/// What is wrong with a rank for a configuration: it has no table under the ranks, where ranks count.
pub open spec fn rank_fault(config: Seq<char>, rank: Seq<char>) -> Option<Seq<char>> {
    match read_entries(config) {
        Err(e) => Some("invalid TOML in dispatch config: "@ + e),
        Ok(m) => if flag_at(m, "rank_acl"@, "enabled"@) == Some(false) || nested_holds(
            m,
            "rank_acl"@,
            "ranks"@,
            rank,
        ) {
            None
        } else {
            Some(
                "rank '"@ + rank + "' is not configured under [rank_acl.ranks] in dispatch config"@,
            )
        },
    }
}

/// Holds a rank to the configuration.
pub fn assert_rank_defined(dispatch_config_toml: &str, rank: &str) -> (r: Result<(), String>)
    ensures
        match rank_fault(dispatch_config_toml@, rank@) {
            None => r is Ok,
            Some(m) => r matches Err(e) && e@ == m,
        },
{
    let doc = match parse_document(dispatch_config_toml) {
        Ok(doc) => doc,
        Err(e) => {
            return Err(cat2("invalid TOML in dispatch config: ", e.as_str()));
        },
    };
    if let Some(false) = table_flag(&doc, "rank_acl", "enabled") {
        return Ok(());
    }
    if nested_has(&doc, "rank_acl", "ranks", rank) {
        return Ok(());
    }
    Err(cat3("rank '", rank, "' is not configured under [rank_acl.ranks] in dispatch config"))
}

/// What a configuration says of a new role.
pub struct NewRole<S> {
    pub role: S,
    pub forgejo_login: S,
    pub token_file: S,
    pub codex_bin: S,
    pub codex_role_arg: S,
}

/// What a configuration says of a new role, over the characters of its texts.
pub open spec fn new_role_view(n: NewRole<String>) -> NewRole<Seq<char>> {
    NewRole {
        role: n.role@,
        forgejo_login: n.forgejo_login@,
        token_file: n.token_file@,
        codex_bin: n.codex_bin@,
        codex_role_arg: n.codex_role_arg@,
    }
}

/// The table of a new role.
pub open spec fn role_table(n: NewRole<Seq<char>>) -> Map<Seq<char>, Toml> {
    text_map(
        seq![
            ("codex_bin"@, n.codex_bin),
            ("codex_role_arg"@, n.codex_role_arg),
            ("forgejo_login"@, n.forgejo_login),
            ("token_file"@, n.token_file),
        ],
    )
}

/// A configuration with a table for its roles.
pub open spec fn with_roles(m: Map<Seq<char>, Toml>) -> Map<Seq<char>, Toml> {
    if m.contains_key("roles"@) {
        m
    } else {
        m.insert("roles"@, Toml::Table(Map::empty()))
    }
}

/// A configuration with the role among those that may dispatch, or what is wrong with it.
pub open spec fn with_actor(m: Map<Seq<char>, Toml>, role: Seq<char>) -> Result<
    Map<Seq<char>, Toml>,
    Seq<char>,
> {
    let key = "allowed_actors"@;
    match at(m, key) {
        None => Ok(m.insert(key, Toml::List(seq![Toml::Text(role)]))),
        Some(Toml::List(items)) => if list_texts(items).contains(Some(role)) {
            Ok(m)
        } else {
            Ok(m.insert(key, Toml::List(items.push(Toml::Text(role)))))
        },
        Some(_) => Err("allowed_actors must be an array"@),
    }
}

/// The configuration with the new role, or what is wrong with it: the roles are no table, or have the
/// role, or those that may dispatch are no list.
pub open spec fn with_role(
    m: Map<Seq<char>, Toml>,
    n: NewRole<Seq<char>>,
    can_dispatch: bool,
) -> Result<Map<Seq<char>, Toml>, Seq<char>> {
    let base = with_roles(m);
    match table_holds(base, "roles"@, n.role) {
        None => Err("[roles] must be a table"@),
        Some(true) => Err("role '"@ + n.role + "' already exists"@),
        Some(false) => {
            let added = base.insert(
                "roles"@,
                with_table(base["roles"@], n.role, role_table(n)),
            );
            if can_dispatch {
                with_actor(added, n.role)
            } else {
                Ok(added)
            }
        },
    }
}

/// The text prints a document that holds the entries of the configuration with the new role; or it says
/// what is wrong. That the layout stays is the editor's doing, and not stated here.
pub open spec fn role_added(
    config: Seq<char>,
    n: NewRole<Seq<char>>,
    can_dispatch: bool,
    text: Result<Seq<char>, Seq<char>>,
) -> bool {
    match read_entries(config) {
        Err(e) => text == Err::<Seq<char>, Seq<char>>("invalid TOML in dispatch config: "@ + e),
        Ok(m) => match with_role(m, n, can_dispatch) {
            Err(e) => text == Err::<Seq<char>, Seq<char>>(e),
            Ok(after) => text matches Ok(t) && exists|doc: toml_edit::DocumentMut|
                entries(doc) == after && t == #[trigger] printed(doc),
        },
    }
}

/// Tells whether a text is among those of a list.
fn has_text(list: &Vec<Option<String>>, text: &str) -> (r: bool)
    ensures
        r == list@.map_values(|t: Option<String>| opt_view(t)).contains(Some(text@)),
{
    let ghost all = list@.map_values(|t: Option<String>| opt_view(t));
    let mut i: usize = 0;
    while i < list.len()
        invariant
            i <= list@.len(),
            all == list@.map_values(|t: Option<String>| opt_view(t)),
            forall|k: int| 0 <= k < i ==> #[trigger] all[k] != Some(text@),
        decreases list.len() - i,
    {
        proof {
            assert(all[i as int] == opt_view(list@[i as int]));
        }
        if opt_is(&list[i], text) {
            return true;
        }
        i = i + 1;
    }
    false
}

/// The configuration with a new role, edited in place and printed.
pub fn render_role_added_config(original: &str, new: &NewRole<String>, can_dispatch: bool) -> (r:
    Result<String, String>)
    ensures
        role_added(original@, new_role_view(*new), can_dispatch, text_result(r)),
{
    let mut doc = match parse_document(original) {
        Ok(doc) => doc,
        Err(e) => {
            return Err(cat2("invalid TOML in dispatch config: ", e.as_str()));
        },
    };
    let ghost m = entries(doc);
    if !has_entry(&doc, "roles") {
        put_table(&mut doc, "roles");
    }
    match table_has(&doc, "roles", new.role.as_str()) {
        None => {
            return Err("[roles] must be a table".to_owned());
        },
        Some(true) => {
            return Err(cat3("role '", new.role.as_str(), "' already exists"));
        },
        Some(false) => {},
    }
    let table: Vec<(String, String)> = vec![
        ("codex_bin".to_owned(), new.codex_bin.clone()),
        ("codex_role_arg".to_owned(), new.codex_role_arg.clone()),
        ("forgejo_login".to_owned(), new.forgejo_login.clone()),
        ("token_file".to_owned(), new.token_file.clone()),
    ];
    proof {
        assert(table@.map_values(|p: (String, String)| (p.0@, p.1@)) =~= seq![
            ("codex_bin"@, new.codex_bin@),
            ("codex_role_arg"@, new.codex_role_arg@),
            ("forgejo_login"@, new.forgejo_login@),
            ("token_file"@, new.token_file@),
        ]);
    }
    put_texts(&mut doc, "roles", new.role.as_str(), &table);
    if can_dispatch {
        if !has_entry(&doc, "allowed_actors") {
            put_list(&mut doc, "allowed_actors");
            let ghost before = entries(doc);
            push_text(&mut doc, "allowed_actors", new.role.as_str());
            proof {
                let one = Seq::<Toml>::empty().push(Toml::Text(new.role@));
                assert(one =~= seq![Toml::Text(new.role@)]);
                let want = with_role(m, new_role_view(*new), can_dispatch)->Ok_0;
                assert(entries(doc) =~= want);
            }
        } else {
            match list_of(&doc, "allowed_actors") {
                None => {
                    return Err("allowed_actors must be an array".to_owned());
                },
                Some(list) => {
                    if !has_text(&list, new.role.as_str()) {
                        push_text(&mut doc, "allowed_actors", new.role.as_str());
                    }
                },
            }
        }
    }
    Ok(document_text(&doc))
}

/// The card of a new role: the template with the role and the rank in it.
pub fn render_role_card(
    role: &str,
    rank: &str,
    role_card_file: &str,
    template: &Option<String>,
) -> (r: Result<String, String>)
    ensures
        text_result(r) == (match opt_view(*template) {
            Some(t) => Ok(replaced(replaced(t, "{{role}}"@, role@), "{{rank}}"@, rank@)),
            None => Err(
                "failed reading role template "@ + DEFAULT_ROLE_TEMPLATE@ + " (needed for "@
                    + role_card_file@ + ")"@,
            ),
        }),
{
    match template {
        Some(t) => {
            proof {
                reveal_strlit("{{role}}");
                reveal_strlit("{{rank}}");
            }
            let named = str_replaced(t.as_str(), "{{role}}", role);
            Ok(str_replaced(named.as_str(), "{{rank}}", rank))
        },
        None => Err(
            cat5(
                "failed reading role template ",
                DEFAULT_ROLE_TEMPLATE,
                " (needed for ",
                role_card_file,
                ")",
            ),
        ),
    }
}

/// A new role stands in the configuration that results, with what was said of it, and the roles that
/// were there stand as they were.
pub proof fn law_added_roles_are_there(
    m: Map<Seq<char>, Toml>,
    n: NewRole<Seq<char>>,
    can_dispatch: bool,
    other: Seq<char>,
)
    requires
        with_role(m, n, can_dispatch) is Ok,
        other != n.role,
    ensures
        ({
            let after = with_role(m, n, can_dispatch)->Ok_0;
            &&& table_holds(after, "roles"@, n.role) == Some(true)
            &&& table_holds(after, "roles"@, other) == table_holds(with_roles(m), "roles"@, other)
            &&& at(table_like(after["roles"@])->Some_0, other) == at(
                table_like(with_roles(m)["roles"@])->Some_0,
                other,
            )
        }),
{
    reveal_strlit("roles");
    reveal_strlit("allowed_actors");
    assert("roles"@.len() != "allowed_actors"@.len());
}

/// A role that a configuration has cannot be added again.
pub proof fn law_roles_are_added_once(
    m: Map<Seq<char>, Toml>,
    n: NewRole<Seq<char>>,
    again: NewRole<Seq<char>>,
    can_dispatch: bool,
    can_again: bool,
)
    requires
        with_role(m, n, can_dispatch) is Ok,
        again.role == n.role,
    ensures
        with_role(with_role(m, n, can_dispatch)->Ok_0, again, can_again) is Err,
{
    reveal_strlit("roles");
    reveal_strlit("allowed_actors");
    assert("roles"@.len() != "allowed_actors"@.len());
}

/// A new role that may dispatch is among those that may, and one that may not is not added to them; who
/// may dispatch already stays.
pub proof fn law_added_roles_may_dispatch_where_said(
    m: Map<Seq<char>, Toml>,
    n: NewRole<Seq<char>>,
    items: Seq<Toml>,
)
    requires
        with_role(m, n, true) is Ok,
        m.contains_key("allowed_actors"@),
        m["allowed_actors"@] == Toml::List(items),
    ensures
        ({
            let may = with_role(m, n, true)->Ok_0["allowed_actors"@];
            &&& may matches Toml::List(after) && items.is_prefix_of(after) && after.len() <= items.len()
                + 1 && (after.contains(Toml::Text(n.role)) || list_texts(items).contains(Some(n.role)))
        }),
        with_role(m, n, false) is Ok,
        with_role(m, n, false)->Ok_0["allowed_actors"@] == Toml::List(items),
{
    reveal_strlit("roles");
    reveal_strlit("allowed_actors");
    assert("roles"@.len() != "allowed_actors"@.len());
    assert(items.push(Toml::Text(n.role))[items.len() as int] == Toml::Text(n.role));
    assert(items.push(Toml::Text(n.role)).take(items.len() as int) =~= items);
    assert(items.take(items.len() as int) =~= items);
}

/// A token is what its file holds without white space around it; an empty file holds none.
pub proof fn law_tokens_are_trimmed(path: Seq<char>, raw: Seq<char>)
    ensures
        token_in(path, Some(raw)) is Ok <==> trim(raw).len() > 0,
        token_in(path, Some(raw)) matches Ok(t) ==> t == trim(raw),
        token_in(path, None) is Err,
{
}

/// The rank of a card is that of the first of its lines that gives one.
pub proof fn law_the_first_rank_is_the_cards(ls: Seq<Seq<char>>, line: Seq<char>)
    ensures
        card_rank_name(seq![line] + ls) == (if line_rank_name(line) is Some {
            line_rank_name(line)
        } else {
            card_rank_name(ls)
        }),
        line_rank_name(line) matches Some(r) ==> (bullet_word(line) matches Some(w) && rank_name(w)
            == Ok::<Seq<char>, Seq<char>>(r)),
{
    assert((seq![line] + ls).drop_first() =~= ls);
}

/// The name of a rank is what is written of it without marks around it, where that is a rank; it is one
/// exactly where it has a number.
pub proof fn law_ranks_are_named_by_number(raw: Seq<char>)
    ensures
        rank_name(raw) is Ok <==> crate::rank_acl::rank_number(raw) is Some,
        rank_name(raw) matches Ok(r) ==> r == rank_token(raw) && "OF-"@.is_prefix_of(r),
{
}

/// The name of a role is in lower case, begins as those of agents do, and has letters, digits, dashes and
/// underscores alone.
pub proof fn law_roles_are_named_as_agents(raw: Seq<char>)
    ensures
        role_name(raw) is Ok <==> norm(raw).len() > 0 && "codex-"@.is_prefix_of(norm(raw)) && forall|
            i: int,
        |
            0 <= i < norm(raw).len() ==> ('a' <= #[trigger] norm(raw)[i] <= 'z') || ('A' <= norm(raw)[i]
                <= 'Z') || ('0' <= norm(raw)[i] <= '9') || norm(raw)[i] == '-' || norm(raw)[i] == '_',
        role_name(raw) matches Ok(r) ==> r == norm(raw),
{
    let role = norm(raw);
    if role_name(raw) is Ok {
        assert forall|i: int| 0 <= i < role.len() implies ('a' <= #[trigger] role[i] <= 'z') || ('A'
            <= role[i] <= 'Z') || ('0' <= role[i] <= '9') || role[i] == '-' || role[i] == '_' by {
            assert(role_char(role[i]));
        }
    }
}

/// The token of a role is where it is set to be, or else among the credentials below the home directory,
/// under the name of the role.
pub proof fn law_tokens_of_roles_have_their_place(path: Seq<char>, role: Seq<char>, home: Seq<char>)
    ensures
        role_token_path(Some(path), role, Some(home)) == expanded(path, Some(home)),
        role_token_path(None, role, Some(home)) == Ok::<Seq<char>, Seq<char>>(
            joined(joined(home, ".config/forgejo-agent/creds"@), role + ".token"@),
        ),
        role_token_path(None, role, None) is Err,
{
}

} // verus!
