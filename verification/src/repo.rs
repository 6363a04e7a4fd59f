//! Branches, git URLs and the files next to the store.

use crate::errors::DispatchError;
use crate::paths::{join_path, joined, parent_of, path_parent};
use crate::text::{
    cat3, cat5, cat6, chars_of, decimal, decimal_int, i64_text, is_digit,
    law_decimal_is_one_to_one, law_decimal_reads_back, replace_char, str_replace_char,
    str_trim_back_of, str_trim_front_of, string_of, trim_back_of, trim_front_of, u64_text,
};
use crate::types::{repo_parts, RepoRef};
use crate::urls::{path_of, set_path, set_username, url_path, url_path_set, url_user_set};
use vstd::prelude::*;
use vstd::string::*;

verus! {

pub const DEFAULT_GIT_REMOTE: &'static str = "origin";

pub const DEFAULT_GIT_BASE_BRANCH: &'static str = "main";

/// Tells whether a character is an ASCII letter or digit.
pub open spec fn is_alnum(c: char) -> bool {
    ('a' <= c <= 'z') || ('A' <= c <= 'Z') || ('0' <= c <= '9')
}

/// What a token becomes, given what has been written and whether that ends in a dash: letters and
/// digits in lower case, a dash for each run of others, cut once it is as long as `max`.
pub open spec fn token_after(out: Seq<char>, last_dash: bool, rest: Seq<char>, max: nat) -> Seq<char>
    decreases rest.len(),
{
    if rest.len() == 0 {
        out
    } else {
        let c = rest[0];
        let next = if is_alnum(c) {
            out.push(crate::text::lower_char(c))
        } else if !last_dash {
            out.push('-')
        } else {
            out
        };
        if next.len() >= max {
            next
        } else {
            token_after(next, !is_alnum(c), rest.drop_first(), max)
        }
    }
}

/// A text as part of a branch name.
pub open spec fn sanitized(input: Seq<char>, max: nat) -> Seq<char> {
    trim_back_of(
        trim_front_of(token_after(Seq::empty(), false, input, max), "-"@),
        "-"@,
    )
}

/// `input` as part of a branch name: ASCII letters and digits in lower case with single dashes between
/// their runs, about `max_len` long at most.
pub fn git_sanitize_token(input: &str, max_len: usize) -> (r: String)
    ensures
        r@ == sanitized(input@, max_len as nat),
{
    let cs = chars_of(input);
    let mut out: Vec<char> = Vec::new();
    let mut last_dash = false;
    let mut i: usize = 0;
    let mut stop = false;
    let ghost goal = token_after(Seq::empty(), false, input@, max_len as nat);
    proof {
        assert(input@.skip(0) =~= input@);
    }
    while i < cs.len() && !stop
        invariant
            i <= cs@.len(),
            cs@ == input@,
            stop ==> out@ == goal,
            !stop ==> token_after(out@, last_dash, input@.skip(i as int), max_len as nat) == goal,
        decreases cs.len() - i,
    {
        let c = cs[i];
        proof {
            assert(input@.skip(i as int)[0] == c);
            assert(input@.skip(i as int).drop_first() =~= input@.skip(i + 1));
        }
        if (c >= 'a' && c <= 'z') || (c >= '0' && c <= '9') {
            out.push(c);
            last_dash = false;
        } else if c >= 'A' && c <= 'Z' {
            out.push(((c as u8) + 32) as char);
            last_dash = false;
        } else if !last_dash {
            out.push('-');
            last_dash = true;
        }
        if out.len() >= max_len {
            stop = true;
        }
        i = i + 1;
    }
    let text = string_of(out.as_slice());
    str_trim_back_of(str_trim_front_of(text.as_str(), "-"), "-").to_owned()
}

/// The branch of a dispatch.
pub open spec fn dispatch_branch(
    repo: Seq<char>,
    issue_number: u64,
    dispatch_id: i64,
    directive: Seq<char>,
) -> Seq<char> {
    "orchd/d"@ + decimal_int(dispatch_id as int) + "/r"@ + sanitized(repo, 24) + "-i"@ + decimal(
        issue_number as nat,
    ) + "-"@ + sanitized(directive, 12)
}

/// The branch that a dispatch works on.
pub fn dispatch_worktree_branch(
    repo_full_name: &str,
    issue_number: u64,
    dispatch_id: i64,
    directive: &str,
) -> (r: String)
    ensures
        r@ == dispatch_branch(repo_full_name@, issue_number, dispatch_id, directive@),
{
    let mut b = cat6(
        "orchd/d",
        i64_text(dispatch_id).as_str(),
        "/r",
        git_sanitize_token(repo_full_name, 24).as_str(),
        "-i",
        u64_text(issue_number).as_str(),
    );
    b.append("-");
    b.append(git_sanitize_token(directive, 12).as_str());
    b
}

/// The path of a repository's git URL below the path of the forge.
pub open spec fn git_path(base_path: Seq<char>, owner: Seq<char>, repo: Seq<char>) -> Seq<char> {
    let b = trim_back_of(base_path, "/"@);
    if b.len() == 0 {
        "/"@ + owner + "/"@ + repo + ".git"@
    } else {
        b + "/"@ + owner + "/"@ + repo + ".git"@
    }
}

/// The path of a repository's git URL below the path of the forge.
pub fn git_url_path(base_path: &str, owner: &str, repo: &str) -> (r: String)
    ensures
        r@ == git_path(base_path@, owner@, repo@),
{
    let b = str_trim_back_of(base_path, "/");
    if b.is_empty() {
        cat5("/", owner, "/", repo, ".git")
    } else {
        cat6(b, "/", owner, "/", repo, ".git")
    }
}

/// The git URL of a repository on the forge at `base_url`, for the user; or why there is none.
pub open spec fn git_url(base_url: Seq<char>, user: Seq<char>, repo: Seq<char>) -> Option<Seq<char>> {
    match (repo_parts(repo), url_user_set(base_url, user)) {
        (Some(p), Some(with_user)) => match url_path(with_user) {
            Some(base_path) => url_path_set(with_user, git_path(base_path, p.0, p.1)),
            None => None,
        },
        _ => None,
    }
}

/// The git URL of a repository, or what is said where there is none.
pub open spec fn git_url_result(base_url: Seq<char>, user: Seq<char>, repo: Seq<char>) -> Result<
    Seq<char>,
    Seq<char>,
> {
    match git_url(base_url, user, repo) {
        Some(u) => Ok(u),
        None => if repo_parts(repo) is None {
            Err("invalid issue ref: "@ + repo)
        } else {
            Err("io failure: "@ + ("failed setting username '"@ + user + "' in git URL"@))
        },
    }
}

/// The git URL of a repository on the forge at `base_url`, for `username`.
pub fn forgejo_http_git_url(base_url: &str, username: &str, repo_full_name: &str) -> (r: Result<
    String,
    DispatchError,
>)
    ensures
        r matches Ok(u) ==> Some(u@) == git_url(base_url@, username@, repo_full_name@),
        r is Ok <==> git_url(base_url@, username@, repo_full_name@) is Some,
        repo_parts(repo_full_name@) is None ==> (r matches Err(DispatchError::InvalidIssueRef(x))
            && x@ == repo_full_name@),
        repo_parts(repo_full_name@) is Some && r is Err ==> (r matches Err(DispatchError::Io(x))
            && x@ == "failed setting username '"@ + username@ + "' in git URL"@),
        match git_url_result(base_url@, username@, repo_full_name@) {
            Ok(t) => r matches Ok(u) && u@ == t,
            Err(m) => r matches Err(e) && e.says() == m,
        },
{
    let repo = match RepoRef::parse(repo_full_name) {
        Ok(repo) => repo,
        Err(_) => {
            return Err(DispatchError::InvalidIssueRef(repo_full_name.to_owned()));
        },
    };
    if let Some(with_user) = set_username(base_url, username) {
        if let Some(base_path) = path_of(with_user.as_str()) {
            let path = git_url_path(base_path.as_str(), repo.owner.as_str(), repo.repo.as_str());
            if let Some(u) = set_path(with_user.as_str(), path.as_str()) {
                return Ok(u);
            }
        }
    }
    Err(DispatchError::Io(cat3("failed setting username '", username, "' in git URL")))
}

/// A path next to the store.
pub open spec fn beside(db_path: Seq<char>, name: Seq<char>) -> Option<Seq<char>> {
    match parent_of(db_path) {
        Some(dir) => Some(joined(dir, name)),
        None => None,
    }
}

/// The outcome of looking next to the store.
pub open spec fn beside_result(
    r: Result<String, DispatchError>,
    db_path: Seq<char>,
    name: Seq<char>,
) -> bool {
    match beside(db_path, name) {
        Some(p) => r matches Ok(x) && x@ == p,
        None => r matches Err(DispatchError::Io(x)) && x@ == "db path has no parent"@,
    }
}

/// The path of `name` next to the store.
pub fn path_beside(db_path: &str, name: &str) -> (r: Result<String, DispatchError>)
    ensures
        beside_result(r, db_path@, name@),
{
    match path_parent(db_path) {
        Some(dir) => Ok(join_path(dir.as_str(), name)),
        None => Err(DispatchError::Io("db path has no parent".to_owned())),
    }
}

/// The directory of the repository locks.
pub fn lock_root(db_path: &str) -> (r: Result<String, DispatchError>)
    ensures
        beside_result(r, db_path@, "locks"@),
{
    path_beside(db_path, "locks")
}

/// The directory of the dispatch runs.
pub fn run_root(db_path: &str) -> (r: Result<String, DispatchError>)
    ensures
        beside_result(r, db_path@, "dispatch-runs"@),
{
    path_beside(db_path, "dispatch-runs")
}

/// The directory of the repository checkouts.
pub fn repo_store_root(db_path: &str) -> (r: Result<String, DispatchError>)
    ensures
        beside_result(r, db_path@, "repos"@),
{
    path_beside(db_path, "repos")
}

/// The script that hands git its token.
pub fn git_askpass_script_path(db_path: &str) -> (r: Result<String, DispatchError>)
    ensures
        beside_result(r, db_path@, "git-askpass.sh"@),
{
    path_beside(db_path, "git-askpass.sh")
}

/// The checkout of a repository for a login.
pub fn repo_checkout_root(db_path: &str, forgejo_login: &str, repo: &RepoRef) -> (r: Result<
    String,
    DispatchError,
>)
    ensures
        match beside(db_path@, "repos"@) {
            Some(root) => r matches Ok(x) && x@ == joined(
                joined(joined(root, forgejo_login@), repo.owner@),
                repo.repo@,
            ),
            None => r matches Err(DispatchError::Io(x)) && x@ == "db path has no parent"@,
        },
{
    match repo_store_root(db_path) {
        Ok(root) => {
            let a = join_path(root.as_str(), forgejo_login);
            let b = join_path(a.as_str(), repo.owner.as_str());
            Ok(join_path(b.as_str(), repo.repo.as_str()))
        },
        Err(e) => Err(e),
    }
}

/// The lock file of a repository, below the lock directory.
pub fn repo_lock_path(lock_dir: &str, repo_full_name: &str) -> (r: String)
    ensures
        r@ == joined(lock_dir@, replace_char(repo_full_name@, '/', "__"@) + ".lock"@),
{
    let mut name = str_replace_char(repo_full_name, '/', "__");
    name.append(".lock");
    join_path(lock_dir, name.as_str())
}

/// What a number is written with is never a slash.
proof fn lemma_decimal_has_no_slash(n: int, i: int)
    requires
        0 <= i < decimal_int(n).len(),
    ensures
        decimal_int(n)[i] != '/',
{
    reveal_strlit("-");
    let m = if n < 0 {
        (-n) as nat
    } else {
        n as nat
    };
    law_decimal_reads_back(m);
    let d = decimal(m);
    if n < 0 {
        if i > 0 {
            assert(decimal_int(n)[i] == d[i - 1]);
            assert(is_digit(d[i - 1]));
        }
    } else {
        assert(is_digit(d[i]));
    }
}

/// Two dispatches never work on one branch.
pub proof fn law_dispatch_branches_differ(
    repo: Seq<char>,
    number: u64,
    id: i64,
    directive: Seq<char>,
    other_repo: Seq<char>,
    other_number: u64,
    other: i64,
    other_directive: Seq<char>,
)
    requires
        id != other,
    ensures
        dispatch_branch(repo, number, id, directive) != dispatch_branch(
            other_repo,
            other_number,
            other,
            other_directive,
        ),
{
    reveal_strlit("/r");
    let p = "orchd/d"@;
    let a = decimal_int(id as int);
    let b = decimal_int(other as int);
    let x = dispatch_branch(repo, number, id, directive);
    let y = dispatch_branch(other_repo, other_number, other, other_directive);
    if x == y {
        assert(x[(p.len() + a.len()) as int] == '/');
        assert(y[(p.len() + b.len()) as int] == '/');
        if a.len() < b.len() {
            assert(y[(p.len() + a.len()) as int] == b[a.len() as int]);
            lemma_decimal_has_no_slash(other as int, a.len() as int);
        } else if b.len() < a.len() {
            assert(x[(p.len() + b.len()) as int] == a[b.len() as int]);
            lemma_decimal_has_no_slash(id as int, b.len() as int);
        } else {
            assert forall|i: int| 0 <= i < a.len() implies a[i] == b[i] by {
                assert(x[p.len() + i] == a[i]);
                assert(y[p.len() + i] == b[i]);
            }
            assert(a =~= b);
            law_decimal_is_one_to_one(id as int, other as int);
        }
    }
}

/// A token of a branch name is plain: letters and digits in lower case and dashes.
pub open spec fn plain_token(t: Seq<char>) -> bool {
    &&& forall|i: int|
        0 <= i < t.len() ==> ('a' <= #[trigger] t[i] <= 'z') || ('0' <= t[i] <= '9') || t[i] == '-'
    &&& forall|i: int, j: int|
        0 <= i && j == i + 1 && j < t.len() ==> !(#[trigger] t[i] == '-' && #[trigger] t[j] == '-')
}

/// What is written of a token stays plain and within its length.
proof fn lemma_token_is_plain(out: Seq<char>, last_dash: bool, rest: Seq<char>, max: nat)
    requires
        plain_token(out),
        out.len() <= max,
        out.len() < max || rest.len() == 0,
        out.len() > 0 ==> (last_dash <==> out.last() == '-'),
    ensures
        plain_token(token_after(out, last_dash, rest, max)),
        token_after(out, last_dash, rest, max).len() <= max,
    decreases rest.len(),
{
    if rest.len() > 0 {
        let c = rest[0];
        let next = if is_alnum(c) {
            out.push(crate::text::lower_char(c))
        } else if !last_dash {
            out.push('-')
        } else {
            out
        };
        assert(is_alnum(c) ==> crate::text::lower_char(c) != '-');
        if next.len() < max {
            if next.len() > 0 {
                assert(!is_alnum(c) <==> next.last() == '-');
                lemma_token_is_plain(next, !is_alnum(c), rest.drop_first(), max);
            } else {
                lemma_token_is_plain(next, !is_alnum(c), rest.drop_first(), max);
            }
        }
    }
}

/// A part of a plain token is plain.
proof fn lemma_trimmed_is_plain(t: Seq<char>)
    requires
        plain_token(t),
    ensures
        plain_token(trim_front_of(t, "-"@)),
        trim_front_of(t, "-"@).len() <= t.len(),
        trim_front_of(t, "-"@).len() > 0 ==> trim_front_of(t, "-"@)[0] != '-',
        plain_token(trim_back_of(t, "-"@)),
        trim_back_of(t, "-"@).is_prefix_of(t),
        trim_back_of(t, "-"@).len() > 0 ==> trim_back_of(t, "-"@).last() != '-',
    decreases t.len(),
{
    reveal_strlit("-");
    assert("-"@[0] == '-');
    if t.len() > 0 {
        let f = t.drop_first();
        let l = t.drop_last();
        assert(plain_token(f)) by {
            assert forall|i: int| 0 <= i < f.len() implies ('a' <= #[trigger] f[i] <= 'z') || ('0' <= f[i]
                <= '9') || f[i] == '-' by {
                assert(f[i] == t[i + 1]);
            }
            assert forall|i: int, j: int| 0 <= i && j == i + 1 && j < f.len() implies !(#[trigger] f[i]
                == '-' && #[trigger] f[j] == '-') by {
                assert(f[i] == t[i + 1] && f[j] == t[j + 1]);
            }
        }
        assert(plain_token(l)) by {
            assert forall|i: int| 0 <= i < l.len() implies ('a' <= #[trigger] l[i] <= 'z') || ('0' <= l[i]
                <= '9') || l[i] == '-' by {
                assert(l[i] == t[i]);
            }
            assert forall|i: int, j: int| 0 <= i && j == i + 1 && j < l.len() implies !(#[trigger] l[i]
                == '-' && #[trigger] l[j] == '-') by {
                assert(l[i] == t[i] && l[j] == t[j]);
            }
        }
        lemma_trimmed_is_plain(f);
        lemma_trimmed_is_plain(l);
    }
}

/// A text as part of a branch name has letters and digits in lower case with single dashes between them,
/// begins and ends with none, and is no longer than it may be.
pub proof fn law_branch_tokens_are_plain(input: Seq<char>, max: nat)
    requires
        max > 0,
    ensures
        plain_token(sanitized(input, max)),
        sanitized(input, max).len() <= max,
        sanitized(input, max).len() > 0 ==> sanitized(input, max)[0] != '-' && sanitized(
            input,
            max,
        ).last() != '-',
{
    let t = token_after(Seq::empty(), false, input, max);
    lemma_token_is_plain(Seq::empty(), false, input, max);
    lemma_trimmed_is_plain(t);
    lemma_trimmed_is_plain(trim_front_of(t, "-"@));
    let r = sanitized(input, max);
    if r.len() > 0 {
        assert(r[0] == trim_front_of(t, "-"@)[0]);
    }
}

/// Letters and digits are kept in a branch name, in lower case and up to its length.
pub proof fn law_branch_tokens_keep_letters_and_digits(input: Seq<char>, max: nat)
    requires
        forall|i: int| 0 <= i < input.len() ==> is_alnum(#[trigger] input[i]),
        max > 0,
    ensures
        input.len() <= max ==> sanitized(input, max) == crate::text::lower(input),
        input.len() > max ==> sanitized(input, max) == crate::text::lower(input.take(max as int)),
{
    reveal_strlit("-");
    lemma_letters_are_kept(Seq::empty(), input, max);
    let t = token_after(Seq::empty(), false, input, max);
    let kept = crate::text::lower(
        if input.len() <= max {
            input
        } else {
            input.take(max as int)
        },
    );
    assert(t =~= kept);
    assert forall|i: int| 0 <= i < t.len() implies #[trigger] t[i] != '-' by {
        assert(is_alnum(input[i]));
        assert(t[i] == crate::text::lower_char(input[i]));
    }
    assert(t.len() > 0 ==> !"-"@.contains(t[0]) && !"-"@.contains(t.last()));
}

/// Letters and digits are written in lower case up to the length.
proof fn lemma_letters_are_kept(out: Seq<char>, rest: Seq<char>, max: nat)
    requires
        forall|i: int| 0 <= i < rest.len() ==> is_alnum(#[trigger] rest[i]),
        out.len() <= max,
        out.len() < max || rest.len() == 0,
    ensures
        token_after(out, false, rest, max) == out + crate::text::lower(
            if out.len() + rest.len() <= max {
                rest
            } else {
                rest.take(max - out.len())
            },
        ),
    decreases rest.len(),
{
    if rest.len() == 0 {
        assert(out + crate::text::lower(rest) =~= out);
    } else {
        let next = out.push(crate::text::lower_char(rest[0]));
        let tail = rest.drop_first();
        let fits = out.len() + rest.len() <= max;
        let kept = if fits {
            rest
        } else {
            rest.take(max - out.len())
        };
        assert(is_alnum(rest[0]));
        if next.len() >= max {
            assert(token_after(out, false, rest, max) == next);
            assert(kept.len() == 1 && kept[0] == rest[0]);
            assert(out + crate::text::lower(kept) =~= next);
        } else {
            assert(token_after(out, false, rest, max) == token_after(next, false, tail, max));
            assert forall|i: int| 0 <= i < tail.len() implies is_alnum(#[trigger] tail[i]) by {
                assert(tail[i] == rest[i + 1]);
            }
            lemma_letters_are_kept(next, tail, max);
            let tail_kept = if next.len() + tail.len() <= max {
                tail
            } else {
                tail.take(max - next.len())
            };
            assert(kept.drop_first() =~= tail_kept);
            assert(out + crate::text::lower(kept) =~= next + crate::text::lower(tail_kept));
        }
    }
}

/// The branch of a dispatch names the dispatch, the repository, the issue and the directive.
pub proof fn law_branches_name_their_dispatch(
    repo: Seq<char>,
    number: u64,
    id: i64,
    directive: Seq<char>,
)
    ensures
        dispatch_branch(repo, number, id, directive) == "orchd/d"@ + decimal_int(id as int) + "/r"@
            + sanitized(repo, 24) + "-i"@ + decimal(number as nat) + "-"@ + sanitized(directive, 12),
{
}

/// Slashes behind the path of the forge do not matter to the path of a repository, which is below it and
/// ends in the suffix of git.
pub proof fn law_git_paths_are_below_the_forge(base: Seq<char>, owner: Seq<char>, repo: Seq<char>)
    ensures
        git_path(base + "/"@, owner, repo) == git_path(base, owner, repo),
        git_path(""@, owner, repo) == "/"@ + owner + "/"@ + repo + ".git"@,
        base.len() > 0 && base.last() != '/' ==> git_path(base, owner, repo) == base + "/"@ + owner
            + "/"@ + repo + ".git"@,
{
    reveal_strlit("/");
    reveal_strlit("");
    assert("/"@[0] == '/');
    assert((base + "/"@).drop_last() =~= base);
    assert((base + "/"@).last() == '/');
    if base.len() > 0 && base.last() != '/' {
        assert(!"/"@.contains(base.last()));
    }
}

/// The files of the store's directory are where their names say, next to the store.
pub proof fn law_files_are_beside_the_store(dir: Seq<char>, db_path: Seq<char>, name: Seq<char>)
    ensures
        parent_of(db_path) == Some(dir) ==> beside(db_path, name) == Some(joined(dir, name)),
        parent_of(db_path) is None ==> beside(db_path, name) is None,
{
}

/// What is next to the store is there where the store has a directory, and nowhere else.
pub proof fn law_there_is_nothing_beside_no_directory(
    r: Result<String, DispatchError>,
    db_path: Seq<char>,
    name: Seq<char>,
)
    requires
        beside_result(r, db_path, name),
    ensures
        r is Ok <==> parent_of(db_path) is Some,
        r matches Ok(p) ==> p@ == joined(parent_of(db_path)->0, name),
{
}

/// Where a repository has no git URL, it is either no repository or the user cannot be set in the URL of
/// the forge.
pub proof fn law_missing_git_urls_are_told_apart(base: Seq<char>, user: Seq<char>, repo: Seq<char>)
    ensures
        git_url(base, user, repo) matches Some(u) ==> git_url_result(base, user, repo) == Ok::<
            Seq<char>,
            Seq<char>,
        >(u),
        repo_parts(repo) is None ==> git_url_result(base, user, repo) == Err::<Seq<char>, Seq<char>>(
            "invalid issue ref: "@ + repo,
        ),
        repo_parts(repo) is Some && git_url(base, user, repo) is None ==> git_url_result(base, user, repo)
            == Err::<Seq<char>, Seq<char>>(
            "io failure: "@ + ("failed setting username '"@ + user + "' in git URL"@),
        ),
{
}

} // verus!
