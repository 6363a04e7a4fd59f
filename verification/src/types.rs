//! References to repositories and issues, and the states of dispatches.

use crate::text::{
    cat3, decimal, is_digit, is_space, law_decimal_reads_back, lemma_split_pair, lemma_trim_keeps,
    parse_unsigned, split, str_eq, str_split, str_trim, trim, u64_text, unsigned_digits,
    unsigned_value, views,
};
use vstd::prelude::*;
use vstd::string::*;

verus! {

/// A repository: `owner/repo`.
pub struct RepoRef {
    pub owner: String,
    pub repo: String,
}

/// The owner and name that a text of the form `owner/repo` gives.
pub open spec fn repo_parts(raw: Seq<char>) -> Option<(Seq<char>, Seq<char>)> {
    let parts = split(trim(raw), '/');
    if parts.len() == 2 && parts[0].len() > 0 && parts[1].len() > 0 {
        Some((parts[0], parts[1]))
    } else {
        None
    }
}

/// The text of a repository.
pub open spec fn repo_text(owner: Seq<char>, repo: Seq<char>) -> Seq<char> {
    owner + "/"@ + repo
}

impl RepoRef {
    /// The owner and the name.
    pub open spec fn parts(self) -> (Seq<char>, Seq<char>) {
        (self.owner@, self.repo@)
    }

    /// The text `owner/repo`.
    pub open spec fn full(self) -> Seq<char> {
        repo_text(self.owner@, self.repo@)
    }

    /// A repository of the given owner and name.
    pub fn new(owner: &str, repo: &str) -> (r: RepoRef)
        ensures
            r.parts() == (owner@, repo@),
    {
        RepoRef { owner: owner.to_owned(), repo: repo.to_owned() }
    }

    /// Reads `owner/repo`.
    pub fn parse(raw: &str) -> (r: Result<RepoRef, String>)
        ensures
            match repo_parts(raw@) {
                Some(p) => r matches Ok(x) && x.parts() == p,
                None => r matches Err(e) && e@ == "invalid repo ref '"@ + raw@
                    + "'; expected owner/repo"@,
            },
    {
        let parts = str_split(str_trim(raw), '/');
        proof {
            assert(parts@.len() == views(parts@).len());
        }
        if parts.len() == 2 {
            proof {
                assert(views(parts@)[0] == parts@[0]@);
                assert(views(parts@)[1] == parts@[1]@);
            }
            if !parts[0].as_str().is_empty() && !parts[1].as_str().is_empty() {
                return Ok(RepoRef { owner: parts[0].clone(), repo: parts[1].clone() });
            }
        }
        Err(cat3("invalid repo ref '", raw, "'; expected owner/repo"))
    }

    /// The text `owner/repo`.
    pub fn text(&self) -> (r: String)
        ensures
            r@ == self.full(),
    {
        cat3(self.owner.as_str(), "/", self.repo.as_str())
    }

    /// A copy.
    pub fn copied(&self) -> (r: RepoRef)
        ensures
            r == *self,
    {
        RepoRef { owner: self.owner.clone(), repo: self.repo.clone() }
    }
}

/// An issue: `owner/repo#number`.
pub struct IssueRef {
    pub repo: RepoRef,
    pub number: u64,
}

/// The text of an issue.
pub open spec fn issue_text(repo: Seq<char>, number: u64) -> Seq<char> {
    repo + "#"@ + decimal(number as nat)
}

impl IssueRef {
    /// The text `owner/repo#number`.
    pub open spec fn full(self) -> Seq<char> {
        issue_text(self.repo.full(), self.number)
    }

    /// Reads `owner/repo#number`.
    pub fn parse(raw: &str) -> (r: Result<IssueRef, String>)
        ensures
            match issue_parts(raw@) {
                Some(p) => r matches Ok(x) && x.repo.parts() == (p.0, p.1) && x.number == p.2,
                None => r matches Err(e) && e@ == "invalid issue ref '"@ + raw@
                    + "'; expected owner/repo#number"@,
            },
    {
        let parts = str_split(str_trim(raw), '#');
        proof {
            assert(parts@.len() == views(parts@).len());
        }
        if parts.len() == 2 {
            proof {
                assert(views(parts@)[0] == parts@[0]@);
                assert(views(parts@)[1] == parts@[1]@);
            }
            if let Ok(repo) = RepoRef::parse(parts[0].as_str()) {
                if let Some(number) = parse_unsigned(parts[1].as_str(), u64::MAX) {
                    return Ok(IssueRef { repo, number });
                }
            }
        }
        Err(cat3("invalid issue ref '", raw, "'; expected owner/repo#number"))
    }

    /// The text `owner/repo#number`.
    pub fn text(&self) -> (r: String)
        ensures
            r@ == self.full(),
    {
        cat3(self.repo.text().as_str(), "#", u64_text(self.number).as_str())
    }
}

/// The owner, name and number that a text of the form `owner/repo#number` gives.
pub open spec fn issue_parts(raw: Seq<char>) -> Option<(Seq<char>, Seq<char>, nat)> {
    let parts = split(trim(raw), '#');
    if parts.len() != 2 {
        None
    } else {
        match (repo_parts(parts[0]), unsigned_value(parts[1], u64::MAX as nat)) {
            (Some(r), Some(n)) => Some((r.0, r.1, n)),
            _ => None,
        }
    }
}

/// Where a dispatch stands.
#[derive(Clone, Copy, PartialEq, Eq, Structural)]
pub enum DispatchState {
    Starting,
    Running,
    Completed,
    FailedStart,
    FailedRuntime,
    TimedOut,
    Blocked,
}

impl DispatchState {
    /// The word that the store keeps for the state.
    pub open spec fn word(self) -> Seq<char> {
        match self {
            DispatchState::Starting => "starting"@,
            DispatchState::Running => "running"@,
            DispatchState::Completed => "completed"@,
            DispatchState::FailedStart => "failed_start"@,
            DispatchState::FailedRuntime => "failed_runtime"@,
            DispatchState::TimedOut => "timed_out"@,
            DispatchState::Blocked => "blocked"@,
        }
    }

    /// The state that the store keeps as the word.
    pub open spec fn of_word(word: Seq<char>) -> Option<DispatchState> {
        if word == "starting"@ {
            Some(DispatchState::Starting)
        } else if word == "running"@ {
            Some(DispatchState::Running)
        } else if word == "completed"@ {
            Some(DispatchState::Completed)
        } else if word == "failed_start"@ {
            Some(DispatchState::FailedStart)
        } else if word == "failed_runtime"@ {
            Some(DispatchState::FailedRuntime)
        } else if word == "timed_out"@ {
            Some(DispatchState::TimedOut)
        } else if word == "blocked"@ {
            Some(DispatchState::Blocked)
        } else {
            None
        }
    }

    /// A dispatch in the state has not ended.
    pub open spec fn in_flight(self) -> bool {
        self == DispatchState::Starting || self == DispatchState::Running
    }

    /// The word that the store keeps for the state.
    pub fn as_db_str(&self) -> (r: &'static str)
        ensures
            r@ == self.word(),
    {
        match self {
            DispatchState::Starting => "starting",
            DispatchState::Running => "running",
            DispatchState::Completed => "completed",
            DispatchState::FailedStart => "failed_start",
            DispatchState::FailedRuntime => "failed_runtime",
            DispatchState::TimedOut => "timed_out",
            DispatchState::Blocked => "blocked",
        }
    }

    /// Tells whether the dispatch has ended.
    pub fn is_terminal(&self) -> (r: bool)
        ensures
            r == !self.in_flight(),
    {
        match self {
            DispatchState::Starting => false,
            DispatchState::Running => false,
            _ => true,
        }
    }

    /// The state that the store keeps as the word.
    pub fn parse_db(word: &str) -> (r: Option<DispatchState>)
        ensures
            r == DispatchState::of_word(word@),
    {
        if str_eq(word, "starting") {
            Some(DispatchState::Starting)
        } else if str_eq(word, "running") {
            Some(DispatchState::Running)
        } else if str_eq(word, "completed") {
            Some(DispatchState::Completed)
        } else if str_eq(word, "failed_start") {
            Some(DispatchState::FailedStart)
        } else if str_eq(word, "failed_runtime") {
            Some(DispatchState::FailedRuntime)
        } else if str_eq(word, "timed_out") {
            Some(DispatchState::TimedOut)
        } else if str_eq(word, "blocked") {
            Some(DispatchState::Blocked)
        } else {
            None
        }
    }
}

/// The store gives each state back that it was given, and knows no word of another.
pub proof fn law_dispatch_states_read_back(s: DispatchState, word: Seq<char>)
    ensures
        DispatchState::of_word(s.word()) == Some(s),
        DispatchState::of_word(word) == Some(s) ==> word == s.word(),
{
    reveal_strlit("starting");
    reveal_strlit("running");
    reveal_strlit("completed");
    reveal_strlit("failed_start");
    reveal_strlit("failed_runtime");
    reveal_strlit("timed_out");
    reveal_strlit("blocked");
    assert("starting"@[0] == 's');
    assert("running"@[0] == 'r');
    assert("completed"@[0] == 'c');
    assert("failed_start"@.len() == 12);
    assert("failed_runtime"@.len() == 14);
    assert("failed_start"@[0] == 'f');
    assert("failed_runtime"@[0] == 'f');
    assert("timed_out"@[0] == 't');
    assert("blocked"@[0] == 'b');
}

/// What the labels of an issue show of its dispatch.
#[derive(Clone, Copy, PartialEq, Eq, Structural)]
pub enum OrchdRuntimeState {
    Queued,
    Running,
    Blocked,
    Failed,
    Completed,
}

impl OrchdRuntimeState {
    /// The word of the state.
    pub open spec fn word(self) -> Seq<char> {
        match self {
            OrchdRuntimeState::Queued => "queued"@,
            OrchdRuntimeState::Running => "running"@,
            OrchdRuntimeState::Blocked => "blocked"@,
            OrchdRuntimeState::Failed => "failed"@,
            OrchdRuntimeState::Completed => "completed"@,
        }
    }

    /// The word of the state.
    pub fn as_str(&self) -> (r: &'static str)
        ensures
            r@ == self.word(),
    {
        match self {
            OrchdRuntimeState::Queued => "queued",
            OrchdRuntimeState::Running => "running",
            OrchdRuntimeState::Blocked => "blocked",
            OrchdRuntimeState::Failed => "failed",
            OrchdRuntimeState::Completed => "completed",
        }
    }
}

/// A part of a reference: not empty, and without white space and separators.
pub open spec fn plain_part(s: Seq<char>) -> bool {
    s.len() > 0 && forall|i: int|
        0 <= i < s.len() ==> !is_space(#[trigger] s[i]) && s[i] != '/' && s[i] != '#'
}

/// Reading the text of a repository gives its owner and its name back.
pub proof fn law_repo_ref_reads_back(owner: Seq<char>, repo: Seq<char>)
    requires
        plain_part(owner),
        plain_part(repo),
    ensures
        repo_parts(repo_text(owner, repo)) == Some((owner, repo)),
{
    reveal_strlit("/");
    let t = repo_text(owner, repo);
    assert(t =~= owner + seq!['/'] + repo);
    assert(t[0] == owner[0]);
    assert(t.last() == repo.last());
    lemma_trim_keeps(t);
    lemma_split_pair(Seq::empty(), owner, repo, '/');
    assert(Seq::<char>::empty() + owner =~= owner);
}

/// Reading the text of an issue gives its repository and its number back.
pub proof fn law_issue_ref_reads_back(owner: Seq<char>, repo: Seq<char>, number: u64)
    requires
        plain_part(owner),
        plain_part(repo),
    ensures
        issue_parts(issue_text(repo_text(owner, repo), number)) == Some(
            (owner, repo, number as nat),
        ),
{
    reveal_strlit("#");
    reveal_strlit("/");
    let r = repo_text(owner, repo);
    let n = decimal(number as nat);
    let t = issue_text(r, number);
    law_decimal_reads_back(number as nat);
    law_repo_ref_reads_back(owner, repo);
    assert(t =~= r + seq!['#'] + n);
    assert(t[0] == owner[0]);
    assert(t.last() == n.last());
    assert(is_digit(n[n.len() - 1]));
    assert(is_digit(n[0]));
    lemma_trim_keeps(t);
    assert forall|i: int| 0 <= i < r.len() implies #[trigger] r[i] != '#' by {
        if i < owner.len() {
            assert(r[i] == owner[i]);
        } else if i > owner.len() {
            assert(r[i] == repo[i - owner.len() - 1]);
        }
    }
    assert forall|i: int| 0 <= i < n.len() implies #[trigger] n[i] != '#' by {
        assert(is_digit(n[i]));
    }
    lemma_split_pair(Seq::empty(), r, n, '#');
    assert(Seq::<char>::empty() + r =~= r);
    assert(unsigned_digits(n) == n);
}

/// A repository is read exactly from an owner and a name with one slash between them, neither of them
/// empty.
pub proof fn law_repositories_are_read_from_two_parts(raw: Seq<char>, owner: Seq<char>, repo: Seq<char>)
    requires
        forall|i: int| 0 <= i < owner.len() ==> #[trigger] owner[i] != '/',
        forall|i: int| 0 <= i < repo.len() ==> #[trigger] repo[i] != '/',
        trim(raw) == owner + seq!['/'] + repo,
    ensures
        owner.len() > 0 && repo.len() > 0 ==> repo_parts(raw) == Some((owner, repo)),
        owner.len() == 0 || repo.len() == 0 ==> repo_parts(raw) is None,
{
    lemma_split_pair(Seq::empty(), owner, repo, '/');
    assert(Seq::<char>::empty() + owner =~= owner);
}

/// A text without a slash, or with more than one, is no repository.
pub proof fn law_other_texts_are_no_repositories(raw: Seq<char>, a: Seq<char>, b: Seq<char>, c: Seq<char>)
    ensures
        (forall|i: int| 0 <= i < trim(raw).len() ==> #[trigger] trim(raw)[i] != '/') ==> repo_parts(raw)
            is None,
        trim(raw) == a + seq!['/'] + (b + seq!['/'] + c) ==> repo_parts(raw) is None,
{
    let t = trim(raw);
    if forall|i: int| 0 <= i < t.len() ==> #[trigger] t[i] != '/' {
        crate::text::lemma_split_none(Seq::empty(), t, '/');
    }
    if t == a + seq!['/'] + (b + seq!['/'] + c) {
        crate::text::law_parts_are_between_separators(a, b + seq!['/'] + c, '/');
        crate::text::law_parts_are_between_separators(b, c, '/');
        lemma_some_part(Seq::empty(), a, '/');
        lemma_some_part(Seq::empty(), b, '/');
        lemma_some_part(Seq::empty(), c, '/');
    }
}

/// A text has at least one part.
proof fn lemma_some_part(cur: Seq<char>, rest: Seq<char>, sep: char)
    ensures
        crate::text::split_after(cur, rest, sep).len() >= 1,
    decreases rest.len(),
{
    if rest.len() > 0 {
        if rest[0] == sep {
            lemma_some_part(Seq::empty(), rest.drop_first(), sep);
        } else {
            lemma_some_part(cur.push(rest[0]), rest.drop_first(), sep);
        }
    }
}

/// The states of a dispatch have their words, and the first two of them are under way.
pub proof fn law_states_have_their_words(s: DispatchState)
    ensures
        DispatchState::Starting.word() == "starting"@,
        DispatchState::Running.word() == "running"@,
        DispatchState::Completed.word() == "completed"@,
        DispatchState::FailedStart.word() == "failed_start"@,
        DispatchState::FailedRuntime.word() == "failed_runtime"@,
        DispatchState::TimedOut.word() == "timed_out"@,
        DispatchState::Blocked.word() == "blocked"@,
        s.in_flight() <==> s.word() == "starting"@ || s.word() == "running"@,
        OrchdRuntimeState::Queued.word() == "queued"@,
        OrchdRuntimeState::Running.word() == "running"@,
        OrchdRuntimeState::Blocked.word() == "blocked"@,
        OrchdRuntimeState::Failed.word() == "failed"@,
        OrchdRuntimeState::Completed.word() == "completed"@,
{
    law_dispatch_states_read_back(s, "starting"@);
    law_dispatch_states_read_back(s, "running"@);
}

/// An issue is read from its repository and its number.
pub proof fn law_issues_are_read_from_repository_and_number(raw: Seq<char>)
    ensures
        issue_parts(raw) matches Some(p) ==> split(trim(raw), '#').len() == 2 && repo_parts(
            split(trim(raw), '#')[0],
        ) == Some((p.0, p.1)) && unsigned_value(split(trim(raw), '#')[1], 0xffff_ffff_ffff_ffff) == Some(
            p.2,
        ),
        split(trim(raw), '#').len() != 2 ==> issue_parts(raw) is None,
        split(trim(raw), '#').len() == 2 && repo_parts(split(trim(raw), '#')[0]) is Some
            && unsigned_value(split(trim(raw), '#')[1], 0xffff_ffff_ffff_ffff) is Some ==> issue_parts(raw)
            is Some,
{
}

} // verus!
