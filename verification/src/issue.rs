//! The sessions of an issue: which there are, and which one is taken up again.

use crate::names::{in_order, set_of_names, NameSet};
use crate::text::{
    add_text, after_prefix, blank, cat2, cat3, cat4, cat5, char_is_space, decimal, decimal_int,
    i64_text, is_space, join, norm, opt_view, push_char, str_blank, str_has_char, str_norm,
    str_strip_prefix, str_trim, trim, u64_text, views,
};
use crate::types::DispatchState;
use vstd::prelude::*;
use vstd::string::*;

verus! {

/// The owner of the repositories whose issues are looked at.
pub const ISSUE_OWNER: &'static str = "main";

/// The program that runs a role, where nothing else is set.
pub const DEFAULT_CODEX_ROLE_BIN: &'static str = "/home/main/forgejo-agent/bin/codex-role";

/// What is wrong with the name of a repository.
pub open spec fn name_fault(name: Seq<char>) -> Option<Seq<char>> {
    if name.len() == 0 {
        Some("repo must be non-empty"@)
    } else if name.contains('/') || name.contains('#') {
        Some("repo must be a bare repo name (for example: forgejo-work)"@)
    } else if exists|i: int| 0 <= i < name.len() && is_space(#[trigger] name[i]) {
        Some("repo must not contain whitespace"@)
    } else {
        None
    }
}

/// The name of a repository, without white space around it.
pub fn validate_repo_name<'a>(repo: &'a str) -> (r: Result<&'a str, String>)
    ensures
        match name_fault(trim(repo@)) {
            None => r matches Ok(x) && x@ == trim(repo@),
            Some(m) => r matches Err(e) && e@ == m,
        },
{
    let name = str_trim(repo);
    if name.is_empty() {
        return Err("repo must be non-empty".to_owned());
    }
    if str_has_char(name, '/') || str_has_char(name, '#') {
        return Err("repo must be a bare repo name (for example: forgejo-work)".to_owned());
    }
    let n: usize = name.unicode_len();
    let mut i: usize = 0;
    while i < n
        invariant
            i <= n,
            n == name@.len(),
            name@ == trim(repo@),
            name@.len() > 0,
            !name@.contains('/'),
            !name@.contains('#'),
            forall|k: int| 0 <= k < i ==> !is_space(#[trigger] name@[k]),
        decreases n - i,
    {
        if char_is_space(name.get_char(i)) {
            return Err("repo must not contain whitespace".to_owned());
        }
        i = i + 1;
    }
    Ok(name)
}

/// The argument with which the agent runs as the role.
pub fn codex_role_arg<'a>(target_role: &'a str) -> (r: &'a str)
    ensures
        r@ == (match after_prefix(target_role@, "codex-"@) {
            Some(rest) => rest,
            None => target_role@,
        }),
{
    match str_strip_prefix(target_role, "codex-") {
        Some(rest) => rest,
        None => target_role,
    }
}

/// The role that was asked for, in its normal form.
pub fn normalized_role_filter(role: &Option<String>) -> (r: Result<Option<String>, String>)
    ensures
        match opt_view(*role) {
            None => r == Ok::<Option<String>, String>(None),
            Some(raw) => if norm(raw).len() == 0 {
                r matches Err(e) && e@ == "role filter must be non-empty when provided"@
            } else {
                r matches Ok(Some(x)) && x@ == norm(raw)
            },
        },
{
    match role {
        None => Ok(None),
        Some(raw) => {
            let name = str_norm(raw.as_str());
            if name.as_str().is_empty() {
                Err("role filter must be non-empty when provided".to_owned())
            } else {
                Ok(Some(name))
            }
        },
    }
}

/// The repository without its owner, where that is the usual one.
pub open spec fn short_name(full: Seq<char>) -> Seq<char> {
    match after_prefix(full, "main/"@) {
        Some(rest) => rest,
        None => full,
    }
}

/// What is said of a repository that is not known.
pub open spec fn unknown_repo(repo: Seq<char>, known: Seq<Seq<char>>) -> Seq<char> {
    let names = known.map_values(|f: Seq<char>| short_name(f));
    if known.len() == 0 {
        "unknown repo '"@ + repo + "' (owner "@ + "main"@ + "); orchd db has no known repos yet"@
    } else {
        "unknown repo '"@ + repo + "' (owner "@ + "main"@ + "); known repos: "@ + join(
            in_order(names.to_set()),
            ", "@,
        )
    }
}

/// Holds a repository to those that the store knows.
pub fn ensure_repo_known(is_known: bool, repo: &str, known: &Vec<String>) -> (r: Result<(), String>)
    ensures
        is_known ==> r is Ok,
        !is_known ==> (r matches Err(e) && e@ == unknown_repo(repo@, views(known@))),
{
    if is_known {
        return Ok(());
    }
    let mut head = cat3("unknown repo '", repo, "' (owner ");
    head.append(ISSUE_OWNER);
    if known.len() == 0 {
        head.append("); orchd db has no known repos yet");
        return Err(head);
    }
    let ghost names = views(known@).map_values(|f: Seq<char>| short_name(f));
    let mut short: Vec<String> = Vec::new();
    let mut i: usize = 0;
    while i < known.len()
        invariant
            i <= known@.len(),
            names == views(known@).map_values(|f: Seq<char>| short_name(f)),
            views(short@) == names.take(i as int),
        decreases known.len() - i,
    {
        let name = match str_strip_prefix(known[i].as_str(), "main/") {
            Some(rest) => rest.to_owned(),
            None => known[i].clone(),
        };
        add_text(&mut short, name);
        proof {
            assert(names[i as int] == short_name(known@[i as int]@));
            assert(names.take(i + 1) =~= names.take(i as int).push(names[i as int]));
        }
        i = i + 1;
    }
    proof {
        assert(names.take(i as int) =~= names);
    }
    let set = set_of_names(&short);
    proof {
        set.lemma_listed();
    }
    let list = set.listing();
    head.append("); known repos: ");
    head.append(list.as_str());
    Err(head)
}

/// A dispatch of an issue that may have a session.
pub struct IssueResumeDispatch {
    pub id: i64,
    pub status: DispatchState,
    pub target_role: String,
    pub codex_session_id: Option<String>,
}

/// A session of an issue, as it is listed.
pub struct IssueSessionSummary {
    pub dispatch_id: i64,
    pub status: String,
    pub target_role: String,
    pub codex_session_id: String,
}

/// The listing shows the dispatch.
pub open spec fn summarizes(s: IssueSessionSummary, d: IssueResumeDispatch) -> bool {
    &&& s.dispatch_id == d.id
    &&& s.status@ == d.status.word()
    &&& s.target_role@ == d.target_role@
    &&& s.codex_session_id@ == (match opt_view(d.codex_session_id) {
        Some(t) => t,
        None => ""@,
    })
}

/// The sessions of an issue, as they are listed.
pub fn issue_session_summaries(rows: &Vec<IssueResumeDispatch>) -> (r: Vec<IssueSessionSummary>)
    ensures
        r@.len() == rows@.len(),
        forall|i: int| 0 <= i < r@.len() ==> summarizes(#[trigger] r@[i], rows@[i]),
{
    let mut out: Vec<IssueSessionSummary> = Vec::new();
    let mut i: usize = 0;
    while i < rows.len()
        invariant
            i <= rows@.len(),
            out@.len() == i,
            forall|k: int| 0 <= k < i ==> summarizes(#[trigger] out@[k], rows@[k]),
        decreases rows.len() - i,
    {
        let row = &rows[i];
        let codex_session_id = match &row.codex_session_id {
            Some(t) => t.clone(),
            None => "".to_owned(),
        };
        out.push(
            IssueSessionSummary {
                dispatch_id: row.id,
                status: row.status.as_db_str().to_owned(),
                target_role: row.target_role.clone(),
                codex_session_id,
            },
        );
        i = i + 1;
    }
    out
}

/// So many spaces.
pub open spec fn spaces(n: nat) -> Seq<char> {
    Seq::new(n, |i: int| ' ')
}

/// The text with spaces behind it, up to a width.
pub open spec fn padded(s: Seq<char>, width: nat) -> Seq<char> {
    if s.len() >= width {
        s
    } else {
        s + spaces((width - s.len()) as nat)
    }
}

/// The text with spaces behind it, up to a width.
pub fn pad(s: &str, width: usize) -> (r: String)
    ensures
        r@ == padded(s@, width as nat),
{
    let n: usize = s.unicode_len();
    let mut out = s.to_owned();
    let mut i: usize = n;
    proof {
        assert(out@ =~= s@ + spaces(0));
    }
    while i < width
        invariant
            n == s@.len(),
            n <= i,
            i > n ==> i <= width,
            out@ == s@ + spaces((i - n) as nat),
        decreases width - i,
    {
        push_char(&mut out, ' ');
        proof {
            assert(out@ =~= s@ + spaces((i + 1 - n) as nat));
        }
        i = i + 1;
    }
    proof {
        assert(n >= width ==> s@ + spaces(0) =~= s@);
    }
    out
}

/// A line of the listing of sessions.
pub fn session_line(dispatch_id: &str, status: &str, role: &str, session_id: &str) -> (r: String)
    ensures
        r@ == padded(dispatch_id@, 12) + " "@ + padded(status@, 16) + " "@ + padded(role@, 18) + " "@
            + session_id@,
{
    let a = pad(dispatch_id, 12);
    let b = pad(status, 16);
    let c = pad(role, 18);
    let mut out = cat3(a.as_str(), " ", b.as_str());
    out.append(" ");
    out.append(c.as_str());
    out.append(" ");
    out.append(session_id);
    out
}

/// The roles of the dispatches.
pub open spec fn roles_of(rows: Seq<IssueResumeDispatch>) -> Seq<Seq<char>> {
    rows.map_values(|d: IssueResumeDispatch| d.target_role@)
}

/// Where the first dispatch of the number stands, or how many there are.
pub open spec fn numbered(rows: Seq<IssueResumeDispatch>, id: i64) -> int
    decreases rows.len(),
{
    if rows.len() == 0 {
        0
    } else if rows[0].id == id {
        0
    } else {
        1 + numbered(rows.drop_first(), id)
    }
}

/// The dispatch whose session is taken up, by its place, or what is wrong: there is none, there is none of
/// the number, or there are several roles and none was asked for.
pub open spec fn picked(
    rows: Seq<IssueResumeDispatch>,
    dispatch_id: Option<i64>,
    filtered: bool,
    issue: Seq<char>,
    repo: Seq<char>,
    number: u64,
) -> Result<int, Seq<char>> {
    if rows.len() == 0 {
        Err("issue "@ + issue + " has no associated codex_session_id"@)
    } else {
        match dispatch_id {
            Some(id) => if numbered(rows, id) < rows.len() {
                Ok(numbered(rows, id))
            } else {
                Err(
                    "dispatch "@ + decimal_int(id as int) + " is not a resumable session for "@
                        + issue,
                )
            },
            None => if !filtered && in_order(roles_of(rows).to_set()).len() > 1 {
                Err(
                    "issue "@ + issue + " has sessions for multiple roles ("@ + join(
                        in_order(roles_of(rows).to_set()),
                        ", "@,
                    ) + "); re-run with --role <role> or --dispatch-id <id> (hint: orchd issue sessions "@
                        + repo + " "@ + decimal(number as nat) + ")"@,
                )
            } else {
                Ok(0)
            },
        }
    }
}

/// The session of a dispatch that is over, or what is wrong with it.
pub open spec fn resumable(d: IssueResumeDispatch, issue: Seq<char>) -> Result<Seq<char>, Seq<char>> {
    if d.status.in_flight() {
        Err(
            "issue "@ + issue + " has non-terminal latest dispatch "@ + decimal_int(d.id as int)
                + " ("@ + d.status.word() + ")"@,
        )
    } else {
        match opt_view(d.codex_session_id) {
            Some(t) if !blank(t) => Ok(trim(t)),
            _ => Err(
                "latest dispatch "@ + decimal_int(d.id as int) + " for "@ + issue
                    + " has no codex_session_id"@,
            ),
        }
    }
}

/// Where the first dispatch of the number stands.
fn place_of_number(rows: &Vec<IssueResumeDispatch>, id: i64) -> (r: usize)
    ensures
        r == numbered(rows@, id),
        r <= rows@.len(),
{
    let mut i: usize = 0;
    proof {
        assert(rows@.skip(0) =~= rows@);
    }
    while i < rows.len()
        invariant
            i <= rows@.len(),
            numbered(rows@, id) == i + numbered(rows@.skip(i as int), id),
        decreases rows.len() - i,
    {
        proof {
            assert(rows@.skip(i as int)[0] == rows@[i as int]);
            assert(rows@.skip(i as int).drop_first() =~= rows@.skip(i + 1));
        }
        if rows[i].id == id {
            return i;
        }
        i = i + 1;
    }
    i
}

/// The names of the roles of the dispatches.
fn role_set(rows: &Vec<IssueResumeDispatch>) -> (r: NameSet)
    ensures
        r.wf(),
        r.names() == roles_of(rows@).to_set(),
{
    let mut names: Vec<String> = Vec::new();
    let mut i: usize = 0;
    while i < rows.len()
        invariant
            i <= rows@.len(),
            views(names@) == roles_of(rows@).take(i as int),
        decreases rows.len() - i,
    {
        add_text(&mut names, rows[i].target_role.clone());
        proof {
            assert(roles_of(rows@).take(i + 1) =~= roles_of(rows@).take(i as int).push(
                rows@[i as int].target_role@,
            ));
        }
        i = i + 1;
    }
    proof {
        assert(roles_of(rows@).take(i as int) =~= roles_of(rows@));
    }
    set_of_names(&names)
}

/// The role and the session that are taken up.
pub open spec fn resumed(
    active: Option<(i64, DispatchState)>,
    rows: Seq<IssueResumeDispatch>,
    dispatch_id: Option<i64>,
    filtered: bool,
    issue: Seq<char>,
    repo: Seq<char>,
    number: u64,
) -> Result<(Seq<char>, Seq<char>), Seq<char>> {
    match active {
        Some((id, status)) => Err(
            "issue "@ + issue + " has in-flight dispatch "@ + decimal_int(id as int) + " ("@
                + status.word() + ")"@,
        ),
        None => match picked(rows, dispatch_id, filtered, issue, repo, number) {
            Err(m) => Err(m),
            Ok(i) => match resumable(rows[i], issue) {
                Err(m) => Err(m),
                Ok(session) => Ok((rows[i].target_role@, session)),
            },
        },
    }
}

/// Picks the dispatch whose session is taken up.
fn pick(
    rows: &Vec<IssueResumeDispatch>,
    dispatch_id: Option<i64>,
    filtered: bool,
    issue_ref: &str,
    repo: &str,
    issue_number: u64,
) -> (r: Result<usize, String>)
    ensures
        match picked(rows@, dispatch_id, filtered, issue_ref@, repo@, issue_number) {
            Ok(i) => r matches Ok(k) && k == i && k < rows@.len(),
            Err(m) => r matches Err(e) && e@ == m,
        },
{
    if rows.len() == 0 {
        return Err(cat3("issue ", issue_ref, " has no associated codex_session_id"));
    }
    if let Some(id) = dispatch_id {
        let i: usize = place_of_number(rows, id);
        if i < rows.len() {
            return Ok(i);
        }
        let n = i64_text(id);
        return Err(
            cat4("dispatch ", n.as_str(), " is not a resumable session for ", issue_ref),
        );
    }
    if !filtered {
        let set = role_set(rows);
        proof {
            set.lemma_listed();
            assert(set.listed().len() == set.items@.len());
        }
        if set.items.len() > 1 {
            let list = set.listing();
            let n = u64_text(issue_number);
            let mut m = cat5(
                "issue ",
                issue_ref,
                " has sessions for multiple roles (",
                list.as_str(),
                "); re-run with --role <role> or --dispatch-id <id> (hint: orchd issue sessions ",
            );
            m.append(repo);
            m.append(" ");
            m.append(n.as_str());
            m.append(")");
            return Err(m);
        }
    }
    Ok(0)
}

/// The role and the session that are taken up.
pub fn issue_resume_command(
    active: Option<(i64, DispatchState)>,
    rows: &Vec<IssueResumeDispatch>,
    dispatch_id: Option<i64>,
    filtered: bool,
    issue_ref: &str,
    repo: &str,
    issue_number: u64,
) -> (r: Result<(String, String), String>)
    ensures
        match resumed(active, rows@, dispatch_id, filtered, issue_ref@, repo@, issue_number) {
            Ok(t) => r matches Ok(x) && (x.0@, x.1@) == t,
            Err(m) => r matches Err(e) && e@ == m,
        },
{
    if let Some((id, status)) = active {
        let n = i64_text(id);
        let mut m = cat5("issue ", issue_ref, " has in-flight dispatch ", n.as_str(), " (");
        m.append(status.as_db_str());
        m.append(")");
        return Err(m);
    }
    let i: usize = match pick(rows, dispatch_id, filtered, issue_ref, repo, issue_number) {
        Ok(i) => i,
        Err(m) => {
            return Err(m);
        },
    };
    let row = &rows[i];
    let n = i64_text(row.id);
    if !row.status.is_terminal() {
        let mut m = cat5(
            "issue ",
            issue_ref,
            " has non-terminal latest dispatch ",
            n.as_str(),
            " (",
        );
        m.append(row.status.as_db_str());
        m.append(")");
        return Err(m);
    }
    if let Some(t) = &row.codex_session_id {
        if !str_blank(t.as_str()) {
            return Ok((row.target_role.clone(), str_trim(t.as_str()).to_owned()));
        }
    }
    Err(cat5("latest dispatch ", n.as_str(), " for ", issue_ref, " has no codex_session_id"))
}

/// The arguments with which a session is taken up.
pub fn run_codex_resume(target_role: &str, session_id: &str, trailing: &Vec<String>) -> (r: Vec<String>)
    ensures
        views(r@) == seq![
            match after_prefix(target_role@, "codex-"@) {
                Some(rest) => rest,
                None => target_role@,
            },
            "resume"@,
            session_id@,
        ] + views(trailing@),
{
    let mut out: Vec<String> = Vec::new();
    proof {
        assert(views(out@) =~= Seq::<Seq<char>>::empty());
    }
    add_text(&mut out, codex_role_arg(target_role).to_owned());
    add_text(&mut out, "resume".to_owned());
    add_text(&mut out, session_id.to_owned());
    let ghost head = views(out@);
    let mut i: usize = 0;
    proof {
        assert(head + views(trailing@).take(0) =~= head);
    }
    while i < trailing.len()
        invariant
            i <= trailing@.len(),
            views(out@) == head + views(trailing@).take(i as int),
        decreases trailing.len() - i,
    {
        add_text(&mut out, trailing[i].clone());
        proof {
            assert(views(out@) =~= head + views(trailing@).take(i + 1));
        }
        i = i + 1;
    }
    proof {
        assert(views(trailing@).take(i as int) =~= views(trailing@));
        assert(views(out@) =~= seq![head[0], head[1], head[2]] + views(trailing@));
    }
    out
}

/// What is said where the agent that took a session up ended badly.
pub fn resume_failure(code: Option<i32>) -> (r: String)
    ensures
        r@ == (match code {
            Some(c) => "codex resume exited with status code "@ + decimal_int(c as int),
            None => "codex resume terminated by signal"@,
        }),
{
    match code {
        Some(c) => {
            let n = i64_text(c as i64);
            cat2("codex resume exited with status code ", n.as_str())
        },
        None => "codex resume terminated by signal".to_owned(),
    }
}

/// A session is taken up only where no dispatch of the issue is under way, and only of a dispatch that
/// is over and has one.
pub proof fn law_only_ended_sessions_are_resumed(
    active: Option<(i64, DispatchState)>,
    rows: Seq<IssueResumeDispatch>,
    dispatch_id: Option<i64>,
    filtered: bool,
    issue: Seq<char>,
    repo: Seq<char>,
    number: u64,
)
    ensures
        resumed(active, rows, dispatch_id, filtered, issue, repo, number) matches Ok(t) ==> {
            &&& active is None
            &&& exists|i: int|
                0 <= i < rows.len() && !(#[trigger] rows[i]).status.in_flight()
                    && rows[i].target_role@ == t.0 && t.1.len() > 0 && (opt_view(
                    rows[i].codex_session_id,
                ) matches Some(s) && trim(s) == t.1) && (dispatch_id matches Some(id)
                    ==> rows[i].id == id)
        },
{
    if active is None && rows.len() > 0 {
        if let Some(id) = dispatch_id {
            lemma_numbered(rows, id);
        }
        if let Ok(i) = picked(rows, dispatch_id, filtered, issue, repo, number) {
            assert(rows[i].target_role@ == rows[i].target_role@);
        }
    }
}

/// A dispatch that is found by its number has it.
proof fn lemma_numbered(rows: Seq<IssueResumeDispatch>, id: i64)
    ensures
        0 <= numbered(rows, id) <= rows.len(),
        numbered(rows, id) < rows.len() ==> rows[numbered(rows, id)].id == id,
    decreases rows.len(),
{
    if rows.len() > 0 && rows[0].id != id {
        lemma_numbered(rows.drop_first(), id);
    }
}

/// A repository is named without an owner, an issue and white space, and not at all where that is all that
/// there is.
pub proof fn law_repository_names_are_bare(name: Seq<char>)
    ensures
        name_fault(name) is None <==> name.len() > 0 && forall|i: int|
            0 <= i < name.len() ==> #[trigger] name[i] != '/' && name[i] != '#' && !is_space(name[i]),
{
    if name_fault(name) is None {
        assert forall|i: int| 0 <= i < name.len() implies #[trigger] name[i] != '/' && name[i] != '#'
            && !is_space(name[i]) by {
            assert(name.contains(name[i]));
        }
    }
}

/// Where no dispatch of the issue is under way, the session that is taken up is that of the dispatch that
/// was asked for by its number, and otherwise that of the latest dispatch, unless there are several roles
/// and none was asked for. The dispatch must be over and have a session. `l` lists the roles.
pub proof fn law_sessions_are_taken_up_where_they_can_be(
    rows: Seq<IssueResumeDispatch>,
    dispatch_id: Option<i64>,
    filtered: bool,
    issue: Seq<char>,
    repo: Seq<char>,
    number: u64,
    k: int,
    l: Seq<Seq<char>>,
)
    requires
        0 <= k < rows.len(),
        dispatch_id matches Some(id) ==> rows[k].id == id && forall|j: int|
            0 <= j < k ==> (#[trigger] rows[j]).id != id,
        dispatch_id is None ==> k == 0,
        crate::names::ascending(l),
        l.to_set() == roles_of(rows).to_set(),
    ensures
        ({
            let r = resumed(None, rows, dispatch_id, filtered, issue, repo, number);
            let d = rows[k];
            let over = d.status != DispatchState::Starting && d.status != DispatchState::Running;
            let has = opt_view(d.codex_session_id) matches Some(t) && trim(t).len() > 0;
            &&& dispatch_id is Some || filtered || l.len() <= 1 ==> (r is Ok <==> over && has)
            &&& dispatch_id is None && !filtered && l.len() > 1 ==> r is Err
            &&& r matches Ok(t) ==> t.0 == d.target_role@ && (opt_view(d.codex_session_id) matches Some(s)
                && t.1 == trim(s))
        }),
{
    let o = in_order(roles_of(rows).to_set());
    assert(crate::names::ascending(l) && l.to_set() == roles_of(rows).to_set());
    assert(crate::names::ascending(o) && o.to_set() == roles_of(rows).to_set());
    crate::names::lemma_listing_unique(o, l);
    if let Some(id) = dispatch_id {
        lemma_numbered_is(rows, id, k);
    }
}

/// The first dispatch of a number is the one before which there is none of it.
proof fn lemma_numbered_is(rows: Seq<IssueResumeDispatch>, id: i64, k: int)
    requires
        0 <= k < rows.len(),
        rows[k].id == id,
        forall|j: int| 0 <= j < k ==> (#[trigger] rows[j]).id != id,
    ensures
        numbered(rows, id) == k,
    decreases rows.len(),
{
    if k > 0 {
        let t = rows.drop_first();
        assert(rows[0].id != id);
        assert forall|j: int| 0 <= j < k - 1 implies (#[trigger] t[j]).id != id by {
            assert(t[j] == rows[j + 1]);
        }
        lemma_numbered_is(t, id, k - 1);
    }
}

/// A dispatch of a number that none has is not taken up, and neither is one where there is none or one is
/// under way.
pub proof fn law_unknown_dispatches_are_not_taken_up(
    active: Option<(i64, DispatchState)>,
    rows: Seq<IssueResumeDispatch>,
    id: i64,
    filtered: bool,
    issue: Seq<char>,
    repo: Seq<char>,
    number: u64,
)
    ensures
        (forall|j: int| 0 <= j < rows.len() ==> (#[trigger] rows[j]).id != id) ==> resumed(
            active,
            rows,
            Some(id),
            filtered,
            issue,
            repo,
            number,
        ) is Err,
        rows.len() == 0 ==> resumed(active, rows, None, filtered, issue, repo, number) is Err,
        active is Some ==> resumed(active, rows, Some(id), filtered, issue, repo, number) is Err
            && resumed(active, rows, None, filtered, issue, repo, number) is Err,
{
    lemma_numbered(rows, id);
}

/// A text in a column begins with the text, is at least as wide as the column, and has spaces behind it.
pub proof fn law_columns_are_filled_with_spaces(s: Seq<char>, width: nat)
    ensures
        s.is_prefix_of(padded(s, width)),
        padded(s, width).len() == (if s.len() >= width {
            s.len()
        } else {
            width
        }),
        forall|i: int| s.len() <= i < padded(s, width).len() ==> #[trigger] padded(s, width)[i] == ' ',
{
    assert(padded(s, width).take(s.len() as int) =~= s);
}

/// A repository of the usual owner is shown without the owner, and any other as it is.
pub proof fn law_usual_owners_are_left_out(name: Seq<char>)
    ensures
        short_name("main/"@ + name) == name,
        !"main/"@.is_prefix_of(name) ==> short_name(name) == name,
{
    assert(("main/"@ + name).take("main/"@.len() as int) =~= "main/"@);
    assert(("main/"@ + name).skip("main/"@.len() as int) =~= name);
}

/// A session is listed as its dispatch says.
pub proof fn law_sessions_are_listed_as_they_are(s: IssueSessionSummary, d: IssueResumeDispatch)
    requires
        summarizes(s, d),
    ensures
        s.dispatch_id == d.id,
        s.status@ == d.status.word(),
        s.target_role@ == d.target_role@,
        d.codex_session_id matches Some(t) ==> s.codex_session_id@ == t@,
        d.codex_session_id is None ==> s.codex_session_id@ == ""@,
{
}

/// A repository that is not known is told with those that are, where there are some.
pub proof fn law_unknown_repositories_are_told_with_the_known(repo: Seq<char>, known: Seq<Seq<char>>)
    ensures
        known.len() == 0 ==> unknown_repo(repo, known) == "unknown repo '"@ + repo + "' (owner "@
            + "main"@ + "); orchd db has no known repos yet"@,
        known.len() > 0 ==> ("unknown repo '"@ + repo + "' (owner "@ + "main"@
            + "); known repos: "@).is_prefix_of(unknown_repo(repo, known)),
{
    let head = "unknown repo '"@ + repo + "' (owner "@ + "main"@ + "); known repos: "@;
    if known.len() > 0 {
        assert(head =~= unknown_repo(repo, known).take(head.len() as int));
    }
}

} // verus!
