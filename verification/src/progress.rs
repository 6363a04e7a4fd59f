//! How far a role has read an issue, and what is known of the repositories that were seen.

use crate::store::NUMBER_TOO_LARGE;
use crate::text::{clone_opt, opt_view, str_eq};
use vstd::prelude::*;
use vstd::string::*;

verus! {

/// Up to which event a role has seen an issue.
#[verifier::ext_equal]
pub struct CursorRow<S> {
    pub repo_full_name: S,
    pub issue_number: i64,
    pub role_name: S,
    pub last_event_id: i64,
    pub updated_at: S,
}

/// A cursor over the characters of its texts.
pub open spec fn cursor_view(r: CursorRow<String>) -> CursorRow<Seq<char>> {
    CursorRow {
        repo_full_name: r.repo_full_name@,
        issue_number: r.issue_number,
        role_name: r.role_name@,
        last_event_id: r.last_event_id,
        updated_at: r.updated_at@,
    }
}

/// Whose cursor it is: the repository, the issue and the role.
pub type CursorKey = (Seq<char>, int, Seq<char>);

/// Whose cursor a row is.
pub open spec fn cursor_key(r: CursorRow<Seq<char>>) -> CursorKey {
    (r.repo_full_name, r.issue_number as int, r.role_name)
}

/// The cursors.
pub struct Cursors {
    pub rows: Vec<CursorRow<String>>,
}

impl View for Cursors {
    type V = Seq<CursorRow<Seq<char>>>;

    open spec fn view(&self) -> Seq<CursorRow<Seq<char>>> {
        self.rows@.map_values(|r: CursorRow<String>| cursor_view(r))
    }
}

/// There is such a cursor.
pub open spec fn has_cursor(rows: Seq<CursorRow<Seq<char>>>, key: CursorKey) -> bool {
    exists|i: int| 0 <= i < rows.len() && cursor_key(#[trigger] rows[i]) == key
}

/// No two cursors are of one key.
pub open spec fn cursors_differ(rows: Seq<CursorRow<Seq<char>>>) -> bool {
    forall|i: int, j: int|
        0 <= i < j < rows.len() ==> cursor_key(#[trigger] rows[i]) != cursor_key(#[trigger] rows[j])
}

/// What the cursor says, where there is one.
pub open spec fn cursor_at(rows: Seq<CursorRow<Seq<char>>>, key: CursorKey) -> Option<i64>
    decreases rows.len(),
{
    if rows.len() == 0 {
        None
    } else if cursor_key(rows.last()) == key {
        Some(rows.last().last_event_id)
    } else {
        cursor_at(rows.drop_last(), key)
    }
}

/// A cursor after one was moved.
pub open spec fn moved_row(
    r: CursorRow<Seq<char>>,
    key: CursorKey,
    event_id: i64,
    now: Seq<char>,
) -> CursorRow<Seq<char>> {
    if cursor_key(r) == key {
        CursorRow { last_event_id: event_id, updated_at: now, ..r }
    } else {
        r
    }
}

/// The cursors after one was moved, or entered where there was none.
pub open spec fn moved(
    rows: Seq<CursorRow<Seq<char>>>,
    key: CursorKey,
    event_id: i64,
    now: Seq<char>,
) -> Seq<CursorRow<Seq<char>>> {
    if has_cursor(rows, key) {
        rows.map_values(|r: CursorRow<Seq<char>>| moved_row(r, key, event_id, now))
    } else {
        rows.push(
            CursorRow {
                repo_full_name: key.0,
                issue_number: key.1 as i64,
                role_name: key.2,
                last_event_id: event_id,
                updated_at: now,
            },
        )
    }
}

impl Cursors {
    /// No cursors.
    pub fn new() -> (r: Cursors)
        ensures
            r@ == Seq::<CursorRow<Seq<char>>>::empty(),
            cursors_differ(r@),
    {
        let r = Cursors { rows: Vec::new() };
        proof {
            assert(r@ =~= Seq::empty());
        }
        r
    }

    /// Tells whether the row is the cursor of the role on the issue.
    fn is_cursor(row: &CursorRow<String>, repo_full_name: &str, issue: i64, role_name: &str) -> (r:
        bool)
        ensures
            r == (cursor_key(cursor_view(*row)) == (repo_full_name@, issue as int, role_name@)),
    {
        str_eq(row.repo_full_name.as_str(), repo_full_name) && row.issue_number == issue && str_eq(
            row.role_name.as_str(),
            role_name,
        )
    }

    /// Up to which event the role has seen the issue.
    pub fn issue_role_cursor_event_id(
        &self,
        repo_full_name: &str,
        issue_number: u64,
        role_name: &str,
    ) -> (r: Result<Option<i64>, String>)
        ensures
            match r {
                Ok(id) => issue_number <= i64::MAX && id == cursor_at(
                    self@,
                    (repo_full_name@, issue_number as int, role_name@),
                ),
                Err(e) => issue_number > i64::MAX && e@ == NUMBER_TOO_LARGE@,
            },
    {
        if issue_number > 9_223_372_036_854_775_807 {
            return Err(NUMBER_TOO_LARGE.to_owned());
        }
        let issue: i64 = issue_number as i64;
        let ghost all = self@;
        let ghost key: CursorKey = (repo_full_name@, issue as int, role_name@);
        let mut i: usize = self.rows.len();
        proof {
            assert(all.take(i as int) =~= all);
        }
        while i > 0
            invariant
                i <= self.rows@.len(),
                issue == issue_number,
                issue_number <= i64::MAX,
                all == self@,
                key == (repo_full_name@, issue as int, role_name@),
                cursor_at(all, key) == cursor_at(all.take(i as int), key),
            decreases i,
        {
            let row = &self.rows[i - 1];
            proof {
                assert(all.take(i as int).last() == cursor_view(*row));
                assert(all.take(i as int).drop_last() =~= all.take(i - 1));
            }
            if Self::is_cursor(row, repo_full_name, issue, role_name) {
                return Ok(Some(row.last_event_id));
            }
            i = i - 1;
        }
        Ok(None)
    }

    /// Records up to which event the role has seen the issue.
    pub fn upsert_issue_role_cursor_event_id(
        &mut self,
        repo_full_name: &str,
        issue_number: u64,
        role_name: &str,
        last_event_id: i64,
        now: &str,
    ) -> (r: Result<(), String>)
        ensures
            match r {
                Ok(_) => issue_number <= i64::MAX && final(self)@ == moved(
                    old(self)@,
                    (repo_full_name@, issue_number as int, role_name@),
                    last_event_id,
                    now@,
                ),
                Err(e) => issue_number > i64::MAX && e@ == NUMBER_TOO_LARGE@ && final(self)@ == old(
                    self,
                )@,
            },
            cursors_differ(old(self)@) ==> cursors_differ(final(self)@),
    {
        if issue_number > 9_223_372_036_854_775_807 {
            return Err(NUMBER_TOO_LARGE.to_owned());
        }
        let issue: i64 = issue_number as i64;
        let ghost key: CursorKey = (repo_full_name@, issue as int, role_name@);
        let ghost start = self@;
        let n: usize = self.rows.len();
        let mut found = false;
        let mut i: usize = 0;
        while i < n
            invariant
                i <= n,
                n == self.rows@.len(),
                n == start.len(),
                key == (repo_full_name@, issue as int, role_name@),
                found == (exists|j: int| 0 <= j < i && cursor_key(#[trigger] start[j]) == key),
                forall|j: int|
                    0 <= j < i ==> #[trigger] self@[j] == moved_row(
                        start[j],
                        key,
                        last_event_id,
                        now@,
                    ),
                forall|j: int| i <= j < n ==> #[trigger] self@[j] == start[j],
            decreases n - i,
        {
            let ghost before = self@;
            assert(before[i as int] == cursor_view(self.rows@[i as int]));
            assert(before[i as int] == start[i as int]);
            if Self::is_cursor(&self.rows[i], repo_full_name, issue, role_name) {
                self.rows[i].last_event_id = last_event_id;
                self.rows[i].updated_at = now.to_owned();
                found = true;
            }
            proof {
                assert(self@ =~= before.update(
                    i as int,
                    moved_row(before[i as int], key, last_event_id, now@),
                ));
            }
            i = i + 1;
        }
        let ghost walked = self@;
        proof {
            assert(walked =~= start.map_values(
                |r: CursorRow<Seq<char>>| moved_row(r, key, last_event_id, now@),
            ));
            assert(found == has_cursor(start, key));
        }
        if !found {
            let row = CursorRow {
                repo_full_name: repo_full_name.to_owned(),
                issue_number: issue,
                role_name: role_name.to_owned(),
                last_event_id,
                updated_at: now.to_owned(),
            };
            let ghost shown = cursor_view(row);
            self.rows.push(row);
            proof {
                assert(walked =~= start);
                assert(self@ =~= start.push(shown));
            }
        }
        proof {
            assert(forall|j: int|
                0 <= j < start.len() ==> cursor_key(#[trigger] self@[j]) == cursor_key(start[j]));
        }
        Ok(())
    }
}

/// Moving cursors keeps what a cursor of another key says.
proof fn lemma_moved_others(
    rows: Seq<CursorRow<Seq<char>>>,
    key: CursorKey,
    other: CursorKey,
    event_id: i64,
    now: Seq<char>,
)
    requires
        other != key,
    ensures
        cursor_at(
            rows.map_values(|r: CursorRow<Seq<char>>| moved_row(r, key, event_id, now)),
            other,
        ) == cursor_at(rows, other),
    decreases rows.len(),
{
    let after = rows.map_values(|r: CursorRow<Seq<char>>| moved_row(r, key, event_id, now));
    if rows.len() > 0 {
        lemma_moved_others(rows.drop_last(), key, other, event_id, now);
        assert(after.drop_last() =~= rows.drop_last().map_values(
            |r: CursorRow<Seq<char>>| moved_row(r, key, event_id, now),
        ));
        assert(after.last() == moved_row(rows.last(), key, event_id, now));
    }
}

/// Moving a cursor that is there makes it say the event.
proof fn lemma_moved_reads_back(
    rows: Seq<CursorRow<Seq<char>>>,
    key: CursorKey,
    event_id: i64,
    now: Seq<char>,
)
    requires
        has_cursor(rows, key),
    ensures
        cursor_at(
            rows.map_values(|r: CursorRow<Seq<char>>| moved_row(r, key, event_id, now)),
            key,
        ) == Some(event_id),
    decreases rows.len(),
{
    let after = rows.map_values(|r: CursorRow<Seq<char>>| moved_row(r, key, event_id, now));
    let i = choose|i: int| 0 <= i < rows.len() && cursor_key(#[trigger] rows[i]) == key;
    assert(after.last() == moved_row(rows.last(), key, event_id, now));
    if cursor_key(rows.last()) != key {
        assert(rows.drop_last()[i] == rows[i]);
        lemma_moved_reads_back(rows.drop_last(), key, event_id, now);
        assert(after.drop_last() =~= rows.drop_last().map_values(
            |r: CursorRow<Seq<char>>| moved_row(r, key, event_id, now),
        ));
    }
}

/// A cursor says what was recorded last, and recording one leaves the others as they were.
pub proof fn law_cursors_read_back(
    rows: Seq<CursorRow<Seq<char>>>,
    key: CursorKey,
    other: CursorKey,
    event_id: i64,
    now: Seq<char>,
)
    requires
        i64::MIN <= key.1 <= i64::MAX,
        other != key,
    ensures
        cursor_at(moved(rows, key, event_id, now), key) == Some(event_id),
        cursor_at(moved(rows, key, event_id, now), other) == cursor_at(rows, other),
{
    let after = moved(rows, key, event_id, now);
    if has_cursor(rows, key) {
        lemma_moved_reads_back(rows, key, event_id, now);
        lemma_moved_others(rows, key, other, event_id, now);
    } else {
        assert(after.drop_last() =~= rows);
        assert(cursor_key(after.last()) == key);
    }
}

/// What is known of a repository.
#[verifier::ext_equal]
pub struct RepoRow<S> {
    pub repo_full_name: S,
    pub first_seen_at: S,
    pub last_seen_at: S,
    pub labels_ensured_at: Option<S>,
    pub local_path: Option<S>,
    pub last_error: Option<S>,
}

/// What is known of a repository, over the characters of its texts.
pub open spec fn repo_view(r: RepoRow<String>) -> RepoRow<Seq<char>> {
    RepoRow {
        repo_full_name: r.repo_full_name@,
        first_seen_at: r.first_seen_at@,
        last_seen_at: r.last_seen_at@,
        labels_ensured_at: opt_view(r.labels_ensured_at),
        local_path: opt_view(r.local_path),
        last_error: opt_view(r.last_error),
    }
}

/// What is learnt of a repository.
pub enum RepoNews<S> {
    /// It was seen.
    Seen,
    /// Its labels were made sure of, or not, with the error where there is one.
    Labels { ok: bool, error: Option<S> },
    /// It is checked out at the path.
    LocalPath(S),
}

/// What is learnt, over the characters of its texts.
pub open spec fn news_view(n: RepoNews<String>) -> RepoNews<Seq<char>> {
    match n {
        RepoNews::Seen => RepoNews::Seen,
        RepoNews::Labels { ok, error } => RepoNews::Labels { ok, error: opt_view(error) },
        RepoNews::LocalPath(path) => RepoNews::LocalPath(path@),
    }
}

/// What is known of a repository after something was learnt of one at a time.
pub open spec fn learnt(
    r: RepoRow<Seq<char>>,
    name: Seq<char>,
    news: RepoNews<Seq<char>>,
    now: Seq<char>,
) -> RepoRow<Seq<char>> {
    if r.repo_full_name != name {
        r
    } else {
        match news {
            RepoNews::Seen => RepoRow { last_seen_at: now, ..r },
            RepoNews::Labels { ok, error } => RepoRow {
                labels_ensured_at: if ok {
                    Some(now)
                } else {
                    r.labels_ensured_at
                },
                last_error: error,
                last_seen_at: now,
                ..r
            },
            RepoNews::LocalPath(path) => RepoRow {
                local_path: Some(path),
                last_seen_at: now,
                ..r
            },
        }
    }
}

/// What is known of all after something was learnt of one.
pub open spec fn all_learnt(
    rows: Seq<RepoRow<Seq<char>>>,
    name: Seq<char>,
    news: RepoNews<Seq<char>>,
    now: Seq<char>,
) -> Seq<RepoRow<Seq<char>>> {
    rows.map_values(|r: RepoRow<Seq<char>>| learnt(r, name, news, now))
}

/// The repository was seen.
pub open spec fn repo_known(rows: Seq<RepoRow<Seq<char>>>, name: Seq<char>) -> bool {
    exists|i: int| 0 <= i < rows.len() && (#[trigger] rows[i]).repo_full_name == name
}

/// No repository is there twice.
pub open spec fn repos_differ(rows: Seq<RepoRow<Seq<char>>>) -> bool {
    forall|i: int, j: int|
        0 <= i < j < rows.len() ==> (#[trigger] rows[i]).repo_full_name != (
        #[trigger] rows[j]).repo_full_name
}

/// What is known of all after one was seen: it is entered where it was not known.
pub open spec fn all_seen(rows: Seq<RepoRow<Seq<char>>>, name: Seq<char>, now: Seq<char>) -> Seq<
    RepoRow<Seq<char>>,
> {
    if repo_known(rows, name) {
        all_learnt(rows, name, RepoNews::Seen, now)
    } else {
        rows.push(
            RepoRow {
                repo_full_name: name,
                first_seen_at: now,
                last_seen_at: now,
                labels_ensured_at: None,
                local_path: None,
                last_error: None,
            },
        )
    }
}

/// When the labels of the repository were made sure of, where they were.
pub open spec fn labels_at(rows: Seq<RepoRow<Seq<char>>>, name: Seq<char>) -> Option<Seq<char>>
    decreases rows.len(),
{
    if rows.len() == 0 {
        None
    } else if rows.last().repo_full_name == name {
        rows.last().labels_ensured_at
    } else {
        labels_at(rows.drop_last(), name)
    }
}

/// The repositories that were seen.
pub struct Repos {
    pub rows: Vec<RepoRow<String>>,
}

impl View for Repos {
    type V = Seq<RepoRow<Seq<char>>>;

    open spec fn view(&self) -> Seq<RepoRow<Seq<char>>> {
        self.rows@.map_values(|r: RepoRow<String>| repo_view(r))
    }
}

impl Repos {
    /// No repositories.
    pub fn new() -> (r: Repos)
        ensures
            r@ == Seq::<RepoRow<Seq<char>>>::empty(),
            repos_differ(r@),
    {
        let r = Repos { rows: Vec::new() };
        proof {
            assert(r@ =~= Seq::empty());
        }
        r
    }

    /// Learns something of a repository, and tells whether it was known.
    fn learn(&mut self, name: &str, news: &RepoNews<String>, now: &str) -> (r: bool)
        ensures
            r == repo_known(old(self)@, name@),
            final(self)@ == all_learnt(old(self)@, name@, news_view(*news), now@),
    {
        let ghost start = self@;
        let ghost said = news_view(*news);
        let n: usize = self.rows.len();
        let mut found = false;
        let mut i: usize = 0;
        while i < n
            invariant
                i <= n,
                n == self.rows@.len(),
                n == start.len(),
                said == news_view(*news),
                found == (exists|j: int|
                    0 <= j < i && (#[trigger] start[j]).repo_full_name == name@),
                forall|j: int|
                    0 <= j < i ==> #[trigger] self@[j] == learnt(start[j], name@, said, now@),
                forall|j: int| i <= j < n ==> #[trigger] self@[j] == start[j],
            decreases n - i,
        {
            let ghost before = self@;
            assert(before[i as int] == repo_view(self.rows@[i as int]));
            assert(before[i as int] == start[i as int]);
            if str_eq(self.rows[i].repo_full_name.as_str(), name) {
                found = true;
                match news {
                    RepoNews::Seen => {},
                    RepoNews::Labels { ok, error } => {
                        if *ok {
                            self.rows[i].labels_ensured_at = Some(now.to_owned());
                        }
                        self.rows[i].last_error = clone_opt(error);
                    },
                    RepoNews::LocalPath(path) => {
                        self.rows[i].local_path = Some(path.clone());
                    },
                }
                self.rows[i].last_seen_at = now.to_owned();
            }
            proof {
                assert(self@ =~= before.update(
                    i as int,
                    learnt(before[i as int], name@, said, now@),
                ));
            }
            i = i + 1;
        }
        proof {
            assert(self@ =~= all_learnt(start, name@, said, now@));
        }
        found
    }

    /// Records that the repository was seen.
    pub fn upsert_repo_seen(&mut self, repo_full_name: &str, now: &str)
        ensures
            final(self)@ == all_seen(old(self)@, repo_full_name@, now@),
            repos_differ(old(self)@) ==> repos_differ(final(self)@),
    {
        let ghost start = self@;
        let known = self.learn(repo_full_name, &RepoNews::Seen, now);
        if !known {
            let row = RepoRow {
                repo_full_name: repo_full_name.to_owned(),
                first_seen_at: now.to_owned(),
                last_seen_at: now.to_owned(),
                labels_ensured_at: None,
                local_path: None,
                last_error: None,
            };
            let ghost shown = repo_view(row);
            proof {
                assert(self@ =~= start);
            }
            self.rows.push(row);
            proof {
                assert(self@ =~= start.push(shown));
            }
        }
        proof {
            assert(forall|j: int|
                0 <= j < start.len() ==> (#[trigger] self@[j]).repo_full_name
                    == start[j].repo_full_name);
        }
    }

    /// When the labels of the repository were made sure of, where they were.
    pub fn repo_labels_ensured_at(&self, repo_full_name: &str) -> (r: Option<String>)
        ensures
            opt_view(r) == labels_at(self@, repo_full_name@),
    {
        let ghost all = self@;
        let mut i: usize = self.rows.len();
        proof {
            assert(all.take(i as int) =~= all);
        }
        while i > 0
            invariant
                i <= self.rows@.len(),
                all == self@,
                labels_at(all, repo_full_name@) == labels_at(all.take(i as int), repo_full_name@),
            decreases i,
        {
            let row = &self.rows[i - 1];
            proof {
                assert(all.take(i as int).last() == repo_view(*row));
                assert(all.take(i as int).drop_last() =~= all.take(i - 1));
            }
            if str_eq(row.repo_full_name.as_str(), repo_full_name) {
                return clone_opt(&row.labels_ensured_at);
            }
            i = i - 1;
        }
        None
    }

    /// Records whether the labels of the repository were made sure of. Nothing is recorded of one that
    /// was not seen.
    pub fn update_repo_labels_ensured(
        &mut self,
        repo_full_name: &str,
        ok: bool,
        error: Option<String>,
        now: &str,
    )
        ensures
            final(self)@ == all_learnt(
                old(self)@,
                repo_full_name@,
                RepoNews::Labels { ok, error: opt_view(error) },
                now@,
            ),
            repos_differ(old(self)@) ==> repos_differ(final(self)@),
    {
        let _ = self.learn(repo_full_name, &RepoNews::Labels { ok, error }, now);
    }

    /// Records where the repository is checked out. Nothing is recorded of one that was not seen.
    pub fn update_repo_local_path(&mut self, repo_full_name: &str, local_path: &str, now: &str)
        ensures
            final(self)@ == all_learnt(
                old(self)@,
                repo_full_name@,
                RepoNews::LocalPath(local_path@),
                now@,
            ),
            repos_differ(old(self)@) ==> repos_differ(final(self)@),
    {
        let _ = self.learn(repo_full_name, &RepoNews::LocalPath(local_path.to_owned()), now);
    }
}

/// Whatever is learnt of any repository: when one was first seen stays, and labels that were made sure
/// of stay so.
pub proof fn law_first_sights_stay(
    rows: Seq<RepoRow<Seq<char>>>,
    name: Seq<char>,
    news: RepoNews<Seq<char>>,
    now: Seq<char>,
    i: int,
)
    requires
        0 <= i < rows.len(),
    ensures
        all_learnt(rows, name, news, now).len() == rows.len(),
        all_learnt(rows, name, news, now)[i].repo_full_name == rows[i].repo_full_name,
        all_learnt(rows, name, news, now)[i].first_seen_at == rows[i].first_seen_at,
        rows[i].labels_ensured_at is Some ==> all_learnt(rows, name, news, now)[i].labels_ensured_at
            is Some,
        all_seen(rows, name, now).len() >= rows.len(),
        all_seen(rows, name, now)[i].first_seen_at == rows[i].first_seen_at,
        repo_known(all_seen(rows, name, now), name),
{
    let seen = all_seen(rows, name, now);
    if repo_known(rows, name) {
        let k = choose|k: int| 0 <= k < rows.len() && (#[trigger] rows[k]).repo_full_name == name;
        assert(seen[k].repo_full_name == name);
    } else {
        assert(seen[rows.len() as int].repo_full_name == name);
    }
}

/// A cursor says what the row of its repository, its issue and its role says, and nothing where there is
/// none.
pub proof fn law_cursors_say_what_is_recorded(rows: Seq<CursorRow<Seq<char>>>, key: CursorKey, k: int)
    requires
        cursors_differ(rows),
    ensures
        0 <= k < rows.len() && rows[k].repo_full_name == key.0 && rows[k].issue_number == key.1
            && rows[k].role_name == key.2 ==> cursor_at(rows, key) == Some(rows[k].last_event_id),
        (forall|i: int|
            0 <= i < rows.len() ==> !((#[trigger] rows[i]).repo_full_name == key.0
                && rows[i].issue_number == key.1 && rows[i].role_name == key.2)) ==> cursor_at(
            rows,
            key,
        ) is None,
    decreases rows.len(),
{
    if rows.len() > 0 {
        let p = rows.drop_last();
        assert forall|i: int, j: int| 0 <= i < j < p.len() implies cursor_key(#[trigger] p[i])
            != cursor_key(#[trigger] p[j]) by {
            assert(p[i] == rows[i] && p[j] == rows[j]);
        }
        law_cursors_say_what_is_recorded(p, key, k);
        assert(rows[rows.len() - 1] == rows.last());
        if 0 <= k < p.len() {
            assert(p[k] == rows[k]);
            assert(cursor_key(rows[k]) != cursor_key(rows[rows.len() - 1]));
        }
        if forall|i: int|
            0 <= i < rows.len() ==> !((#[trigger] rows[i]).repo_full_name == key.0
                && rows[i].issue_number == key.1 && rows[i].role_name == key.2) {
            assert forall|i: int| 0 <= i < p.len() implies !((#[trigger] p[i]).repo_full_name == key.0
                && p[i].issue_number == key.1 && p[i].role_name == key.2) by {
                assert(p[i] == rows[i]);
            }
        }
    }
}

/// Whatever is learnt of a repository, it was seen then; labels that were made sure of are so from then on
/// and the error is the one that there was; a path is the one that was learnt. The other repositories, and
/// what else is known of the one, stay as they are.
pub proof fn law_news_are_recorded(
    rows: Seq<RepoRow<Seq<char>>>,
    name: Seq<char>,
    news: RepoNews<Seq<char>>,
    now: Seq<char>,
    i: int,
)
    requires
        0 <= i < rows.len(),
    ensures
        ({
            let r = all_learnt(rows, name, news, now)[i];
            &&& rows[i].repo_full_name != name ==> r == rows[i]
            &&& rows[i].repo_full_name == name ==> {
                &&& r.last_seen_at == now
                &&& news is Seen ==> r == RepoRow { last_seen_at: now, ..rows[i] }
                &&& news matches RepoNews::Labels { ok, error } ==> r.last_error == error
                    && r.labels_ensured_at == (if ok {
                    Some(now)
                } else {
                    rows[i].labels_ensured_at
                }) && r.local_path == rows[i].local_path
                &&& news matches RepoNews::LocalPath(path) ==> r.local_path == Some(path)
                    && r.last_error == rows[i].last_error && r.labels_ensured_at
                    == rows[i].labels_ensured_at
            }
        }),
{
}

/// A repository that is seen for the first time is entered behind the others, with nothing else known.
pub proof fn law_new_repositories_are_entered(
    rows: Seq<RepoRow<Seq<char>>>,
    name: Seq<char>,
    now: Seq<char>,
)
    requires
        forall|i: int| 0 <= i < rows.len() ==> (#[trigger] rows[i]).repo_full_name != name,
    ensures
        ({
            let after = all_seen(rows, name, now);
            &&& after.len() == rows.len() + 1
            &&& after.drop_last() == rows
            &&& after.last().repo_full_name == name
            &&& after.last().first_seen_at == now
            &&& after.last().last_seen_at == now
            &&& after.last().labels_ensured_at is None
            &&& after.last().local_path is None
            &&& after.last().last_error is None
        }),
{
    assert(all_seen(rows, name, now).drop_last() =~= rows);
}

/// The labels of a repository are made sure of since the time in its row.
pub proof fn law_label_times_are_those_of_the_row(
    rows: Seq<RepoRow<Seq<char>>>,
    name: Seq<char>,
    k: int,
)
    requires
        repos_differ(rows),
    ensures
        0 <= k < rows.len() && rows[k].repo_full_name == name ==> labels_at(rows, name)
            == rows[k].labels_ensured_at,
        (forall|i: int| 0 <= i < rows.len() ==> (#[trigger] rows[i]).repo_full_name != name)
            ==> labels_at(rows, name) is None,
    decreases rows.len(),
{
    if rows.len() > 0 {
        let p = rows.drop_last();
        assert forall|i: int, j: int| 0 <= i < j < p.len() implies (#[trigger] p[i]).repo_full_name != (
        #[trigger] p[j]).repo_full_name by {
            assert(p[i] == rows[i] && p[j] == rows[j]);
        }
        law_label_times_are_those_of_the_row(p, name, k);
        assert(rows[rows.len() - 1] == rows.last());
        if 0 <= k < p.len() {
            assert(p[k] == rows[k]);
            assert(rows[k].repo_full_name != rows[rows.len() - 1].repo_full_name);
        }
        if forall|i: int| 0 <= i < rows.len() ==> (#[trigger] rows[i]).repo_full_name != name {
            assert forall|i: int| 0 <= i < p.len() implies (#[trigger] p[i]).repo_full_name != name by {
                assert(p[i] == rows[i]);
            }
        }
    }
}

} // verus!
