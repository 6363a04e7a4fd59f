//! Pull requests, and which of them a landed one supersedes.

use crate::repo::{dispatch_branch, sanitized};
use crate::text::{
    cat2, cat3, decimal, decimal_int, has_part, lower, occurs_at, str_contains, str_starts_with,
    u64_text,
};
use crate::types::IssueRef;
use vstd::prelude::*;
use vstd::string::*;

verus! {

/// An answer of the forge that is no success.
pub struct ApiHttpError {
    pub status: u16,
    pub method: String,
    pub path: String,
    pub body: String,
}

impl ApiHttpError {
    /// The text of the error.
    pub open spec fn says(self) -> Seq<char> {
        "Forgejo API error "@ + decimal(self.status as nat) + " "@ + self.method@ + " "@ + self.path@
            + ": "@ + self.body@
    }

    /// The text of the error.
    pub fn message(&self) -> (r: String)
        ensures
            r@ == self.says(),
    {
        let mut m = cat3("Forgejo API error ", u64_text(self.status as u64).as_str(), " ");
        m.append(self.method.as_str());
        m.append(" ");
        m.append(self.path.as_str());
        m.append(": ");
        m.append(self.body.as_str());
        m
    }
}

/// How a pull request is merged.
#[derive(Clone, Copy, PartialEq, Eq, Structural)]
pub enum MergePullMethod {
    Merge,
    Rebase,
    RebaseMerge,
    Squash,
    FastForwardOnly,
    ManuallyMerged,
}

impl MergePullMethod {
    /// The word that the forge has for the method.
    pub open spec fn word(self) -> Seq<char> {
        match self {
            MergePullMethod::Merge => "merge"@,
            MergePullMethod::Rebase => "rebase"@,
            MergePullMethod::RebaseMerge => "rebase-merge"@,
            MergePullMethod::Squash => "squash"@,
            MergePullMethod::FastForwardOnly => "fast-forward-only"@,
            MergePullMethod::ManuallyMerged => "manually-merged"@,
        }
    }

    /// The word that the forge has for the method.
    pub fn as_str(&self) -> (r: &'static str)
        ensures
            r@ == self.word(),
    {
        match self {
            MergePullMethod::Merge => "merge",
            MergePullMethod::Rebase => "rebase",
            MergePullMethod::RebaseMerge => "rebase-merge",
            MergePullMethod::Squash => "squash",
            MergePullMethod::FastForwardOnly => "fast-forward-only",
            MergePullMethod::ManuallyMerged => "manually-merged",
        }
    }
}

/// One side of a pull request.
pub struct ApiPrBranchInfo {
    pub ref_name: String,
    pub sha: String,
}

/// A pull request.
pub struct ApiPullRequest {
    pub number: u64,
    pub state: String,
    pub title: String,
    pub html_url: String,
    pub merged: bool,
    pub mergeable: Option<bool>,
    pub head: ApiPrBranchInfo,
    pub base: ApiPrBranchInfo,
}

impl ApiPullRequest {
    /// A copy.
    pub fn copied(&self) -> (r: ApiPullRequest)
        ensures
            r == *self,
    {
        ApiPullRequest {
            number: self.number,
            state: self.state.clone(),
            title: self.title.clone(),
            html_url: self.html_url.clone(),
            merged: self.merged,
            mergeable: self.mergeable,
            head: ApiPrBranchInfo {
                ref_name: self.head.ref_name.clone(),
                sha: self.head.sha.clone(),
            },
            base: ApiPrBranchInfo {
                ref_name: self.base.ref_name.clone(),
                sha: self.base.sha.clone(),
            },
        }
    }
}

/// The forge asks to try the merge again: it has not finished its check yet.
pub open spec fn try_again_later(status: u16, body: Seq<char>) -> bool {
    status == 405 && has_part(body, "Please try again later"@)
}

/// Tells whether the forge asks to try the merge again later.
pub fn merge_endpoint_reports_try_again_later(http: &ApiHttpError) -> (r: bool)
    ensures
        r == try_again_later(http.status, http.body@),
{
    http.status == 405 && str_contains(http.body.as_str(), "Please try again later")
}

/// The code and detail of a merge that stays blocked.
pub open spec fn merge_block(mergeable: Option<bool>) -> (Seq<char>, Seq<char>) {
    if mergeable == Some(false) {
        (
            "pr_not_mergeable"@,
            "mergeability is false after retry; manual conflict resolution is required"@,
        )
    } else {
        ("pr_merge_blocked"@, "merge still blocked after retry"@)
    }
}

/// What a list says of the mergeability of a pull request: what its first entry of that number says.
pub open spec fn mergeability(prs: Seq<ApiPullRequest>, number: u64) -> Option<bool>
    decreases prs.len(),
{
    if prs.len() == 0 {
        None
    } else if prs[0].number == number {
        prs[0].mergeable
    } else {
        mergeability(prs.drop_first(), number)
    }
}

/// What a list of open pull requests says of the mergeability of one.
pub fn fetch_open_pr_mergeable_state(open_prs: &Vec<ApiPullRequest>, pr_number: u64) -> (r: Option<
    bool,
>)
    ensures
        r == mergeability(open_prs@, pr_number),
{
    let mut i: usize = 0;
    proof {
        assert(open_prs@.skip(0) =~= open_prs@);
    }
    while i < open_prs.len()
        invariant
            i <= open_prs@.len(),
            mergeability(open_prs@, pr_number) == mergeability(
                open_prs@.skip(i as int),
                pr_number,
            ),
        decreases open_prs.len() - i,
    {
        proof {
            assert(open_prs@.skip(i as int)[0] == open_prs@[i as int]);
            assert(open_prs@.skip(i as int).drop_first() =~= open_prs@.skip(i + 1));
        }
        if open_prs[i].number == pr_number {
            return open_prs[i].mergeable;
        }
        i = i + 1;
    }
    None
}

/// The code and detail of a merge that stays blocked, by what the forge says of its mergeability.
pub fn classify_persistent_merge_block(mergeable_state: Option<bool>) -> (r: (
    &'static str,
    &'static str,
))
    ensures
        (r.0@, r.1@) == merge_block(mergeable_state),
{
    match mergeable_state {
        Some(false) => (
            "pr_not_mergeable",
            "mergeability is false after retry; manual conflict resolution is required",
        ),
        _ => ("pr_merge_blocked", "merge still blocked after retry"),
    }
}

/// The pull request belongs to the issue: by its title or by the issue's number in its branch.
pub open spec fn of_issue(pr: ApiPullRequest, issue: Seq<char>, number: u64) -> bool {
    (issue + ": "@).is_prefix_of(pr.title@) || has_part(
        pr.head.ref_name@,
        "-i"@ + decimal(number as nat) + "-"@,
    )
}

/// Tells whether the pull request belongs to the issue.
pub fn issue_identity_matches_pr(pr: &ApiPullRequest, issue_ref: &IssueRef) -> (r: bool)
    ensures
        r == of_issue(*pr, issue_ref.full(), issue_ref.number),
{
    let title_prefix = cat2(issue_ref.text().as_str(), ": ");
    let issue_token = cat3("-i", u64_text(issue_ref.number).as_str(), "-");
    str_starts_with(pr.title.as_str(), title_prefix.as_str()) || str_contains(
        pr.head.ref_name.as_str(),
        issue_token.as_str(),
    )
}

/// The pull request is superseded: another open and unmerged one of the issue on a dispatch branch.
pub open spec fn superseded(pr: ApiPullRequest, issue: Seq<char>, number: u64, landed: u64) -> bool {
    &&& pr.number != landed
    &&& !pr.merged
    &&& lower(pr.state@) == lower("open"@)
    &&& "orchd/d"@.is_prefix_of(pr.head.ref_name@)
    &&& of_issue(pr, issue, number)
}

/// Pull requests in order of their numbers with one more behind those of its number.
pub open spec fn placed(v: Seq<ApiPullRequest>, pr: ApiPullRequest) -> Seq<ApiPullRequest>
    decreases v.len(),
{
    if v.len() > 0 && v.last().number > pr.number {
        placed(v.drop_last(), pr).push(v.last())
    } else {
        v.push(pr)
    }
}

/// The superseded pull requests among `open`, in order of their numbers.
pub open spec fn candidates(open: Seq<ApiPullRequest>, issue: Seq<char>, number: u64, landed: u64) -> Seq<
    ApiPullRequest,
>
    decreases open.len(),
{
    if open.len() == 0 {
        Seq::empty()
    } else {
        let before = candidates(open.drop_last(), issue, number, landed);
        if superseded(open.last(), issue, number, landed) {
            placed(before, open.last())
        } else {
            before
        }
    }
}

/// Inserts a pull request behind those whose numbers are not larger.
fn place(v: &mut Vec<ApiPullRequest>, pr: ApiPullRequest)
    ensures
        final(v)@ == placed(old(v)@, pr),
{
    let ghost before = v@;
    let mut i: usize = v.len();
    proof {
        assert(before.take(before.len() as int) =~= before);
        assert(before.skip(before.len() as int) =~= Seq::<ApiPullRequest>::empty());
        assert(placed(before, pr) =~= placed(before, pr) + Seq::<ApiPullRequest>::empty());
    }
    while i > 0 && v[i - 1].number > pr.number
        invariant
            i <= v@.len(),
            v@ == before,
            placed(before, pr) == placed(before.take(i as int), pr) + before.skip(i as int),
        decreases i,
    {
        proof {
            let t = before.take(i as int);
            assert(t.last() == before[i - 1]);
            assert(t.drop_last() =~= before.take(i - 1));
            assert(placed(t, pr) + before.skip(i as int) =~= placed(before.take(i - 1), pr)
                + before.skip(i - 1));
        }
        i = i - 1;
    }
    proof {
        let t = before.take(i as int);
        if i > 0 {
            assert(t.last() == before[i - 1]);
        }
        assert(before.insert(i as int, pr) =~= t.push(pr) + before.skip(i as int));
    }
    v.insert(i, pr);
}

/// The open pull requests that a landed one supersedes, in order of their numbers.
pub fn superseded_pr_candidates(
    open_prs: Vec<ApiPullRequest>,
    issue_ref: &IssueRef,
    landed_pr_number: u64,
) -> (r: Vec<ApiPullRequest>)
    ensures
        r@ == candidates(open_prs@, issue_ref.full(), issue_ref.number, landed_pr_number),
{
    let mut out: Vec<ApiPullRequest> = Vec::new();
    let mut i: usize = 0;
    let ghost issue = issue_ref.full();
    proof {
        assert(open_prs@.take(0) =~= Seq::<ApiPullRequest>::empty());
    }
    while i < open_prs.len()
        invariant
            i <= open_prs@.len(),
            issue == issue_ref.full(),
            out@ == candidates(
                open_prs@.take(i as int),
                issue,
                issue_ref.number,
                landed_pr_number,
            ),
        decreases open_prs.len() - i,
    {
        proof {
            assert(open_prs@.take(i + 1).drop_last() =~= open_prs@.take(i as int));
            assert(open_prs@.take(i + 1).last() == open_prs@[i as int]);
        }
        let pr = &open_prs[i];
        if pr.number != landed_pr_number && !pr.merged && crate::text::eq_ignore_case(
            pr.state.as_str(),
            "open",
        ) && str_starts_with(pr.head.ref_name.as_str(), "orchd/d") && issue_identity_matches_pr(
            pr,
            issue_ref,
        ) {
            place(&mut out, pr.copied());
        }
        i = i + 1;
    }
    proof {
        assert(open_prs@.take(open_prs@.len() as int) =~= open_prs@);
    }
    out
}

/// Placing keeps the order and adds the one pull request.
proof fn lemma_placed(v: Seq<ApiPullRequest>, pr: ApiPullRequest)
    requires
        forall|i: int, j: int| 0 <= i < j < v.len() ==> (#[trigger] v[i]).number <= (#[trigger] v[j]).number,
    ensures
        forall|i: int, j: int|
            0 <= i < j < placed(v, pr).len() ==>
                (#[trigger] placed(v, pr)[i]).number <= (#[trigger] placed(v, pr)[j]).number,
        forall|x: ApiPullRequest| #[trigger] placed(v, pr).contains(x) <==> v.contains(x) || x == pr,
        placed(v, pr).len() == v.len() + 1,
    decreases v.len(),
{
    if v.len() > 0 && v.last().number > pr.number {
        let w = v.drop_last();
        assert forall|i: int, j: int|
            0 <= i < j < w.len() implies (#[trigger] w[i]).number <= (#[trigger] w[j]).number by {
            assert(v[i].number <= v[j].number);
        }
        lemma_placed(w, pr);
        let p = placed(w, pr);
        let out = placed(v, pr);
        assert forall|i: int, j: int|
            0 <= i < j < out.len() implies
                (#[trigger] out[i]).number <= (#[trigger] out[j]).number by {
            assert(out[i] == p[i]);
            if j < p.len() {
                assert(out[j] == p[j]);
            } else {
                assert(p.contains(p[i]));
                if p[i] != pr {
                    assert(w.contains(p[i]));
                    let k = choose|k: int| 0 <= k < w.len() && w[k] == p[i];
                    assert(v[k].number <= v[v.len() - 1].number);
                }
            }
        }
        assert forall|x: ApiPullRequest| #[trigger] out.contains(x) <==> v.contains(x) || x == pr by {
            if out.contains(x) {
                let k = choose|k: int| 0 <= k < out.len() && out[k] == x;
                if k < p.len() {
                    assert(p.contains(x));
                    if w.contains(x) {
                        let m = choose|m: int| 0 <= m < w.len() && w[m] == x;
                        assert(v[m] == x);
                    }
                } else {
                    assert(v[v.len() - 1] == x);
                }
            }
            if v.contains(x) {
                let k = choose|k: int| 0 <= k < v.len() && v[k] == x;
                if k < w.len() {
                    assert(w[k] == x);
                    assert(p.contains(x));
                    let m = choose|m: int| 0 <= m < p.len() && p[m] == x;
                    assert(out[m] == x);
                } else {
                    assert(out[out.len() - 1] == x);
                }
            }
            if x == pr {
                assert(p.contains(x));
                let m = choose|m: int| 0 <= m < p.len() && p[m] == x;
                assert(out[m] == x);
            }
        }
    } else {
        let out = placed(v, pr);
        assert forall|i: int, j: int|
            0 <= i < j < out.len() implies
                (#[trigger] out[i]).number <= (#[trigger] out[j]).number by {
            assert(out[i] == v[i]);
            if j < v.len() {
                assert(out[j] == v[j]);
            } else {
                assert(v[i].number <= v[v.len() - 1].number);
            }
        }
        assert forall|x: ApiPullRequest| #[trigger] out.contains(x) <==> v.contains(x) || x == pr by {
            if v.contains(x) {
                let k = choose|k: int| 0 <= k < v.len() && v[k] == x;
                assert(out[k] == x);
            }
            if x == pr {
                assert(out[v.len() as int] == x);
            }
        }
    }
}

/// The candidates stand in order of their numbers, and they are exactly the superseded ones among
/// those open: the landed pull request is never among them.
pub proof fn law_candidates_are_ordered_and_exact(
    open: Seq<ApiPullRequest>,
    issue: Seq<char>,
    number: u64,
    landed: u64,
)
    ensures
        forall|i: int, j: int|
            0 <= i < j < candidates(open, issue, number, landed).len() ==>
                (#[trigger] candidates(open, issue, number, landed)[i]).number
                    <= (#[trigger] candidates(open, issue, number, landed)[j]).number,
        forall|x: ApiPullRequest|
            #[trigger] candidates(open, issue, number, landed).contains(x) <==>
                open.contains(x) && superseded(x, issue, number, landed),
    decreases open.len(),
{
    if open.len() > 0 {
        let w = open.drop_last();
        law_candidates_are_ordered_and_exact(w, issue, number, landed);
        let before = candidates(w, issue, number, landed);
        lemma_placed(before, open.last());
        assert forall|x: ApiPullRequest|
            #[trigger] candidates(open, issue, number, landed).contains(x) <==>
                open.contains(x) && superseded(x, issue, number, landed) by {
            if open.contains(x) {
                let k = choose|k: int| 0 <= k < open.len() && open[k] == x;
                if k < w.len() {
                    assert(w[k] == x);
                }
            }
            if w.contains(x) {
                let k = choose|k: int| 0 <= k < w.len() && w[k] == x;
                assert(open[k] == x);
            }
            assert(open[open.len() - 1] == open.last());
        }
    }
}

/// A pull request from the branch of a dispatch belongs to the issue of the dispatch.
pub proof fn law_dispatch_branches_name_their_issue(
    pr: ApiPullRequest,
    issue: Seq<char>,
    repo: Seq<char>,
    number: u64,
    id: i64,
    directive: Seq<char>,
)
    requires
        pr.head.ref_name@ == dispatch_branch(repo, number, id, directive),
    ensures
        of_issue(pr, issue, number),
        "orchd/d"@.is_prefix_of(pr.head.ref_name@),
{
    let head = "orchd/d"@ + decimal_int(id as int) + "/r"@ + sanitized(repo, 24);
    let token = "-i"@ + decimal(number as nat) + "-"@;
    let all = dispatch_branch(repo, number, id, directive);
    assert(all =~= head + token + sanitized(directive, 12));
    assert(all.subrange(head.len() as int, (head.len() + token.len()) as int) =~= token);
    assert(occurs_at(all, token, head.len() as int));
    assert(all.take("orchd/d"@.len() as int) =~= "orchd/d"@);
}

/// A pull request is superseded exactly where it is another one, open and not merged, from the branch of a
/// dispatch, and of the same issue by its title or by its branch.
pub proof fn law_superseded_pulls_are_of_the_issue(
    pr: ApiPullRequest,
    issue: Seq<char>,
    number: u64,
    landed: u64,
)
    ensures
        superseded(pr, issue, number, landed) <==> pr.number != landed && !pr.merged && lower(pr.state@)
            == lower("open"@) && "orchd/d"@.is_prefix_of(pr.head.ref_name@) && ((issue
            + ": "@).is_prefix_of(pr.title@) || has_part(
            pr.head.ref_name@,
            "-i"@ + decimal(number as nat) + "-"@,
        )),
{
}

/// The mergeability of a pull request is what the first entry of its number says, and unknown where there
/// is none.
pub proof fn law_the_first_entry_tells_the_mergeability(prs: Seq<ApiPullRequest>, number: u64, k: int)
    requires
        0 <= k <= prs.len(),
        k < prs.len() ==> prs[k].number == number,
        forall|i: int| 0 <= i < k ==> (#[trigger] prs[i]).number != number,
    ensures
        k < prs.len() ==> mergeability(prs, number) == prs[k].mergeable,
        k == prs.len() ==> mergeability(prs, number) is None,
    decreases prs.len(),
{
    if prs.len() > 0 && k > 0 {
        assert(prs[0].number != number);
        let t = prs.drop_first();
        assert forall|i: int| 0 <= i < k - 1 implies (#[trigger] t[i]).number != number by {
            assert(t[i] == prs[i + 1]);
        }
        law_the_first_entry_tells_the_mergeability(t, number, k - 1);
    }
}

/// A merge stays blocked because of conflicts only where the forge says so, and is tried again only where
/// the forge asks for that.
pub proof fn law_blocks_are_told_apart(m: Option<bool>, status: u16, body: Seq<char>)
    ensures
        merge_block(Some(false)).0 == "pr_not_mergeable"@,
        m != Some(false) ==> merge_block(m).0 == "pr_merge_blocked"@,
        try_again_later(status, body) <==> status == 405 && has_part(body, "Please try again later"@),
        MergePullMethod::Merge.word() == "merge"@,
        MergePullMethod::Rebase.word() == "rebase"@,
        MergePullMethod::RebaseMerge.word() == "rebase-merge"@,
        MergePullMethod::Squash.word() == "squash"@,
        MergePullMethod::FastForwardOnly.word() == "fast-forward-only"@,
        MergePullMethod::ManuallyMerged.word() == "manually-merged"@,
{
}

} // verus!
