//! The forge's API: what each call asks for, and how redirects are followed.

use crate::documents::{json_text, json_text_at};
use crate::pulls::MergePullMethod;
use crate::text::{
    add_text, after_prefix, cat2, cat3, cat4, cat5, cat6, clone_opt, decimal, first_chars, join,
    opt_view, split, str_eq, str_first_chars, str_join, str_split, str_starts_with,
    str_strip_prefix, str_trim_back_of, str_views, texts, trim_back_of, u64_text, views,
};
use crate::types::{IssueRef, RepoRef};
use crate::urls::{
    api_path_with_query, join_url, origin_shared, path_of, query_of, same_origin, url_joined,
    url_path, url_query, with_query,
};
use vstd::prelude::*;
use vstd::string::*;

verus! {

/// How many requests one call makes at most.
pub const MAX_REDIRECTS: u8 = 10;

/// How many labels one page holds at most.
pub const LABEL_PAGE_LIMIT: u64 = 1000;

/// How many pages of labels are asked for at most.
pub const LABEL_MAX_PAGES: u64 = 200;

/// The method of a request.
#[derive(Clone, Copy, PartialEq, Eq, Structural, Debug)]
pub enum ApiMethod {
    Get,
    Post,
    Put,
    Patch,
    Delete,
}

impl ApiMethod {
    /// The name of the method.
    pub open spec fn word(self) -> Seq<char> {
        match self {
            ApiMethod::Get => "GET"@,
            ApiMethod::Post => "POST"@,
            ApiMethod::Put => "PUT"@,
            ApiMethod::Patch => "PATCH"@,
            ApiMethod::Delete => "DELETE"@,
        }
    }

    /// The name of the method.
    pub fn as_str(&self) -> (r: &'static str)
        ensures
            r@ == self.word(),
    {
        match self {
            ApiMethod::Get => "GET",
            ApiMethod::Post => "POST",
            ApiMethod::Put => "PUT",
            ApiMethod::Patch => "PATCH",
            ApiMethod::Delete => "DELETE",
        }
    }
}

/// A label that is to be made.
pub struct CreateLabelBody<'a> {
    pub name: &'a str,
    pub color: &'a str,
    pub description: &'a str,
    pub exclusive: bool,
}

/// A label of a repository.
pub struct ApiLabel {
    pub id: u64,
    pub name: String,
}

/// Whether an issue is open.
#[derive(Clone, Copy, PartialEq, Eq, Structural, Debug)]
pub enum OpenState {
    Open,
    Closed,
}

/// What a request carries.
#[allow(inconsistent_fields)]
#[verifier::ext_equal]
pub enum ApiBody<S, L> {
    Nothing,
    Repo { name: S, description: S, private: bool, auto_init: bool },
    Label { name: S, color: S, description: S, exclusive: bool },
    Issue { title: S, body: S },
    Labels(Vec<u64>),
    State(OpenState),
    IssueEdit { title: Option<S>, body: Option<S> },
    Assignees(L),
    Comment(S),
    PullRequest { title: S, head: S, base: S, body: S },
    Merge { method: MergePullMethod, head_commit_id: Option<S>, delete_branch_after_merge: bool },
    Hook { kind: S, url: S, content_type: S, secret: Option<S>, events: L, active: bool },
}

/// A request to the forge.
pub struct ApiRequest {
    pub method: ApiMethod,
    pub path: String,
    pub body: ApiBody<String, Vec<String>>,
}

/// What a request carries, over the characters of its texts.
pub open spec fn body_view(b: ApiBody<String, Vec<String>>) -> ApiBody<Seq<char>, Seq<Seq<char>>> {
    match b {
        ApiBody::Nothing => ApiBody::Nothing,
        ApiBody::Repo { name, description, private, auto_init } => ApiBody::Repo {
            name: name@,
            description: description@,
            private,
            auto_init,
        },
        ApiBody::Label { name, color, description, exclusive } => ApiBody::Label {
            name: name@,
            color: color@,
            description: description@,
            exclusive,
        },
        ApiBody::Issue { title, body } => ApiBody::Issue { title: title@, body: body@ },
        ApiBody::Labels(ids) => ApiBody::Labels(ids),
        ApiBody::State(s) => ApiBody::State(s),
        ApiBody::IssueEdit { title, body } => ApiBody::IssueEdit {
            title: opt_view(title),
            body: opt_view(body),
        },
        ApiBody::Assignees(list) => ApiBody::Assignees(views(list@)),
        ApiBody::Comment(t) => ApiBody::Comment(t@),
        ApiBody::PullRequest { title, head, base, body } => ApiBody::PullRequest {
            title: title@,
            head: head@,
            base: base@,
            body: body@,
        },
        ApiBody::Merge { method, head_commit_id, delete_branch_after_merge } => ApiBody::Merge {
            method,
            head_commit_id: opt_view(head_commit_id),
            delete_branch_after_merge,
        },
        ApiBody::Hook { kind, url, content_type, secret, events, active } => ApiBody::Hook {
            kind: kind@,
            url: url@,
            content_type: content_type@,
            secret: opt_view(secret),
            events: views(events@),
            active,
        },
    }
}

/// The request is the one of the method, path and body.
pub open spec fn asks(
    r: ApiRequest,
    method: ApiMethod,
    path: Seq<char>,
    body: ApiBody<Seq<char>, Seq<Seq<char>>>,
) -> bool {
    r.method == method && r.path@ == path && body_view(r.body) == body
}

/// Where the forge keeps a repository.
pub open spec fn repo_path(repo: RepoRef) -> Seq<char> {
    "/api/v1/repos/"@ + repo.owner@ + "/"@ + repo.repo@
}

/// The request for a page of the labels of a repository, or the refusal of a page past the last.
pub open spec fn asks_for_labels(repo: RepoRef, page: u64, r: Result<ApiRequest, String>) -> bool {
    match r {
        Ok(q) => page <= LABEL_MAX_PAGES && asks(
            q,
            ApiMethod::Get,
            repo_path(repo) + "/labels?limit="@ + decimal(LABEL_PAGE_LIMIT as nat) + "&page="@
                + decimal(page as nat),
            ApiBody::Nothing,
        ),
        Err(e) => page > LABEL_MAX_PAGES && e@ == "label listing for "@ + repo.owner@ + "/"@
            + repo.repo@ + " exceeded pagination safety cap (200 pages)"@,
    }
}

/// Where the forge keeps an issue.
pub open spec fn issue_path(issue: IssueRef) -> Seq<char> {
    repo_path(issue.repo) + "/issues/"@ + decimal(issue.number as nat)
}

/// Where the forge keeps a repository.
fn path_of_repo(repo: &RepoRef) -> (r: String)
    ensures
        r@ == repo_path(*repo),
{
    cat4("/api/v1/repos/", repo.owner.as_str(), "/", repo.repo.as_str())
}

/// Where the forge keeps an issue.
fn path_of_issue(issue: &IssueRef) -> (r: String)
    ensures
        r@ == issue_path(*issue),
{
    let repo = path_of_repo(&issue.repo);
    let n = u64_text(issue.number);
    cat3(repo.as_str(), "/issues/", n.as_str())
}

/// A request without a body.
fn plain(method: ApiMethod, path: String) -> (r: ApiRequest)
    ensures
        asks(r, method, path@, ApiBody::Nothing),
{
    ApiRequest { method, path, body: ApiBody::Nothing }
}

/// The segments of a path that are not empty.
pub open spec fn filled(segments: Seq<Seq<char>>) -> Seq<Seq<char>>
    decreases segments.len(),
{
    if segments.len() == 0 {
        Seq::empty()
    } else if segments.last().len() > 0 {
        filled(segments.drop_last()).push(segments.last())
    } else {
        filled(segments.drop_last())
    }
}

/// What a path of the API names below a repository, with its query; nothing where it names no
/// repository.
pub open spec fn repo_route(path: Seq<char>, query: Option<Seq<char>>) -> Option<Seq<char>> {
    match after_prefix(path, "/api/v1/repos/"@) {
        None => None,
        Some(rest) => {
            let segments = filled(split(rest, '/'));
            if segments.len() < 2 {
                None
            } else {
                let route = trim_back_of(join(segments.skip(2), "/"@), "/"@);
                match query {
                    Some(q) if q.len() > 0 => Some(route + "?"@ + q),
                    _ => Some(route),
                }
            }
        },
    }
}

/// What a path of the API names below a repository, with its query.
pub fn repo_api_route(path: &str, query: &Option<String>) -> (r: Option<String>)
    ensures
        opt_view(r) == repo_route(path@, opt_view(*query)),
{
    let rest = match str_strip_prefix(path, "/api/v1/repos/") {
        Some(rest) => rest,
        None => {
            return None;
        },
    };
    let all = str_split(rest, '/');
    let ghost segments = views(all@);
    let mut tail: Vec<String> = Vec::new();
    let mut seen: usize = 0;
    let mut i: usize = 0;
    proof {
        assert(views(tail@) =~= filled(segments.take(0)));
    }
    while i < all.len()
        invariant
            i <= all@.len(),
            segments == views(all@),
            seen <= 2,
            seen < 2 ==> filled(segments.take(i as int)).len() == seen && tail@.len() == 0,
            seen == 2 ==> filled(segments.take(i as int)).len() >= 2 && views(tail@) == filled(
                segments.take(i as int),
            ).skip(2),
        decreases all.len() - i,
    {
        let ghost done = filled(segments.take(i as int));
        proof {
            assert(segments.take(i + 1).last() == all@[i as int]@);
            assert(segments.take(i + 1).drop_last() =~= segments.take(i as int));
        }
        if !all[i].as_str().is_empty() {
            if seen < 2 {
                seen = seen + 1;
                proof {
                    if seen == 2 {
                        assert(views(tail@) =~= done.push(all@[i as int]@).skip(2));
                    }
                }
            } else {
                add_text(&mut tail, all[i].clone());
                proof {
                    assert(done.push(all@[i as int]@).skip(2) =~= done.skip(2).push(
                        all@[i as int]@,
                    ));
                }
            }
        }
        i = i + 1;
    }
    proof {
        assert(segments.take(i as int) =~= segments);
    }
    if seen < 2 {
        return None;
    }
    let joined = str_join(&tail, "/");
    let route = str_trim_back_of(joined.as_str(), "/");
    match query {
        Some(q) => if q.as_str().is_empty() {
            Some(route.to_owned())
        } else {
            Some(cat3(route, "?", q.as_str()))
        },
        None => Some(route.to_owned()),
    }
}

/// What a URL of the API names below a repository.
pub open spec fn url_route(url: Seq<char>) -> Option<Seq<char>> {
    match (url_path(url), url_query(url)) {
        (Some(p), Some(q)) => repo_route(p, q),
        _ => None,
    }
}

/// The redirect only gives the repository its proper name: both name the same below a repository.
pub open spec fn canonicalizes(from: Seq<char>, target: Seq<char>) -> bool {
    url_route(from) is Some && url_route(from) == url_route(target)
}

/// What a URL of the API names below a repository.
fn route_of(url: &str) -> (r: Option<String>)
    ensures
        opt_view(r) == url_route(url@),
{
    match (path_of(url), query_of(url)) {
        (Some(p), Some(q)) => repo_api_route(p.as_str(), &q),
        _ => None,
    }
}

/// Tells whether a redirect only gives the repository its proper name.
pub fn is_repo_canonicalization_redirect(from: &str, target: &str) -> (r: bool)
    ensures
        r == canonicalizes(from@, target@),
{
    match (route_of(from), route_of(target)) {
        (Some(a), Some(b)) => str_eq(a.as_str(), b.as_str()),
        _ => false,
    }
}

/// A call that waits for the answer to a request: the URL asked, and how many more may be asked.
#[verifier::ext_equal]
pub struct Sending<S> {
    pub method: ApiMethod,
    pub base_url: S,
    pub url: S,
    pub left: u8,
}

/// The view of a call.
pub open spec fn sending_view(s: Sending<String>) -> Sending<Seq<char>> {
    Sending { method: s.method, base_url: s.base_url@, url: s.url@, left: s.left }
}

/// The answer to a request. The body is None where it could not be read.
pub enum ApiReply<S> {
    Failed,
    Response { status: u16, location: Option<S>, body: Option<S> },
}

/// The view of an answer.
pub open spec fn reply_view(r: ApiReply<String>) -> ApiReply<Seq<char>> {
    match r {
        ApiReply::Failed => ApiReply::Failed,
        ApiReply::Response { status, location, body } => ApiReply::Response {
            status,
            location: opt_view(location),
            body: opt_view(body),
        },
    }
}

/// What follows an answer: another request, a body with the path that gave it, an error of the forge, or
/// another error.
#[verifier::ext_equal]
pub enum SendStep<S> {
    Request(Sending<S>),
    Success { path: S, body: S },
    Http { status: u16, method: S, path: S, body: S },
    Error(S),
}

/// The view of what follows an answer.
pub open spec fn step_view(s: SendStep<String>) -> SendStep<Seq<char>> {
    match s {
        SendStep::Request(r) => SendStep::Request(sending_view(r)),
        SendStep::Success { path, body } => SendStep::Success { path: path@, body: body@ },
        SendStep::Http { status, method, path, body } => SendStep::Http {
            status,
            method: method@,
            path: path@,
            body: body@,
        },
        SendStep::Error(e) => SendStep::Error(e@),
    }
}

/// The path of a URL with its query.
pub open spec fn shown_path(url: Seq<char>) -> Seq<char> {
    match (url_path(url), url_query(url)) {
        (Some(p), Some(q)) => with_query(p, q),
        _ => url,
    }
}

/// The path of a URL with its query.
fn show_path(url: &str) -> (r: String)
    ensures
        r@ == shown_path(url@),
{
    match api_path_with_query(url) {
        Some(p) => p,
        None => url.to_owned(),
    }
}

/// What follows a redirect: it must say where to, stay with the forge and its API, and, for a request
/// that changes something, only give the repository its proper name.
pub open spec fn redirected(s: Sending<Seq<char>>, location: Option<Seq<char>>) -> SendStep<
    Seq<char>,
> {
    match location {
        None => SendStep::Error("redirect response missing Location header"@),
        Some(l) => match url_joined(s.url, l) {
            None => SendStep::Error("invalid redirect Location header: "@ + l),
            Some(target) => if !origin_shared(s.base_url, target) {
                SendStep::Error("refusing cross-origin redirect to "@ + target)
            } else if !(url_path(target) matches Some(p) && "/api/v1/"@.is_prefix_of(p)) {
                SendStep::Error("refusing non-API redirect to "@ + target)
            } else if s.method != ApiMethod::Get && !canonicalizes(s.url, target) {
                SendStep::Error(
                    "unexpected redirect for "@ + s.method.word() + " "@ + shown_path(s.url)
                        + " -> "@ + shown_path(target),
                )
            } else if s.left == 0 {
                SendStep::Error("too many redirects for "@ + s.method.word() + " "@ + target)
            } else {
                SendStep::Request(Sending { url: target, left: (s.left - 1) as u8, ..s })
            },
        },
    }
}

/// What follows an answer.
pub open spec fn sent(s: Sending<Seq<char>>, reply: ApiReply<Seq<char>>) -> SendStep<Seq<char>> {
    match reply {
        ApiReply::Failed => SendStep::Error(
            "request failed: "@ + s.method.word() + " "@ + s.url,
        ),
        ApiReply::Response { status, location, body } => if 300 <= status < 400 {
            redirected(s, location)
        } else {
            match body {
                None => SendStep::Error(
                    "failed reading response body for "@ + s.method.word() + " "@ + s.url,
                ),
                Some(b) => if 200 <= status < 300 {
                    SendStep::Success { path: shown_path(s.url), body: b }
                } else {
                    SendStep::Http {
                        status,
                        method: s.method.word(),
                        path: shown_path(s.url),
                        body: b,
                    }
                },
            }
        },
    }
}

/// What follows a redirect.
fn follow(s: Sending<String>, location: Option<String>) -> (r: SendStep<String>)
    ensures
        step_view(r) == redirected(sending_view(s), opt_view(location)),
{
    let l = match location {
        Some(l) => l,
        None => {
            return SendStep::Error("redirect response missing Location header".to_owned());
        },
    };
    let target = match join_url(s.url.as_str(), l.as_str()) {
        Some(t) => t,
        None => {
            return SendStep::Error(cat2("invalid redirect Location header: ", l.as_str()));
        },
    };
    if !same_origin(s.base_url.as_str(), target.as_str()) {
        return SendStep::Error(cat2("refusing cross-origin redirect to ", target.as_str()));
    }
    let in_api = match path_of(target.as_str()) {
        Some(p) => str_starts_with(p.as_str(), "/api/v1/"),
        None => false,
    };
    if !in_api {
        return SendStep::Error(cat2("refusing non-API redirect to ", target.as_str()));
    }
    if s.method != ApiMethod::Get && !is_repo_canonicalization_redirect(
        s.url.as_str(),
        target.as_str(),
    ) {
        let a = show_path(s.url.as_str());
        let b = show_path(target.as_str());
        return SendStep::Error(
            cat6(
                "unexpected redirect for ",
                s.method.as_str(),
                " ",
                a.as_str(),
                " -> ",
                b.as_str(),
            ),
        );
    }
    if s.left == 0 {
        return SendStep::Error(
            cat4("too many redirects for ", s.method.as_str(), " ", target.as_str()),
        );
    }
    let left: u8 = s.left - 1;
    SendStep::Request(Sending { method: s.method, base_url: s.base_url, url: target, left })
}

/// Takes a call on by the answer to its request.
pub fn send_success(s: Sending<String>, reply: ApiReply<String>) -> (r: SendStep<String>)
    ensures
        step_view(r) == sent(sending_view(s), reply_view(reply)),
{
    match reply {
        ApiReply::Failed => SendStep::Error(
            cat4("request failed: ", s.method.as_str(), " ", s.url.as_str()),
        ),
        ApiReply::Response { status, location, body } => {
            if 300 <= status && status < 400 {
                return follow(s, location);
            }
            match body {
                None => SendStep::Error(
                    cat4(
                        "failed reading response body for ",
                        s.method.as_str(),
                        " ",
                        s.url.as_str(),
                    ),
                ),
                Some(b) => {
                    let path = show_path(s.url.as_str());
                    if 200 <= status && status < 300 {
                        SendStep::Success { path, body: b }
                    } else {
                        SendStep::Http { status, method: s.method.as_str().to_owned(), path, body: b }
                    }
                },
            }
        },
    }
}

/// A redirect is followed only to the forge itself and within its API, and a request that changes
/// something only where the redirect gives the repository its proper name. Each one uses up one of the
/// requests that are left.
pub proof fn law_redirects_stay_with_the_forge(s: Sending<Seq<char>>, reply: ApiReply<Seq<char>>)
    ensures
        sent(s, reply) matches SendStep::Request(n) ==> {
            &&& origin_shared(s.base_url, n.url)
            &&& url_path(n.url) matches Some(p) && "/api/v1/"@.is_prefix_of(p)
            &&& s.method != ApiMethod::Get ==> canonicalizes(s.url, n.url)
            &&& n.base_url == s.base_url && n.method == s.method
            &&& n.left < s.left
        },
{
}

/// A forge, by the URL of its root.
pub struct ForgejoClient {
    pub base_url: String,
}

impl ForgejoClient {
    /// The forge of the URL.
    pub fn new(base_url: &str) -> (r: ForgejoClient)
        ensures
            r.base_url@ == base_url@,
    {
        ForgejoClient { base_url: base_url.to_owned() }
    }

    /// Takes up a call: the URL to ask first.
    pub fn endpoint(&self, method: ApiMethod, path: &str) -> (r: Result<Sending<String>, String>)
        ensures
            match url_joined(self.base_url@, path@) {
                Some(url) => r matches Ok(s) && sending_view(s) == (Sending {
                    method,
                    base_url: self.base_url@,
                    url,
                    left: 9,
                }),
                None => r matches Err(e) && e@ == "failed building endpoint URL for "@ + path@,
            },
    {
        match join_url(self.base_url.as_str(), path) {
            Some(url) => Ok(
                Sending { method, base_url: self.base_url.clone(), url, left: MAX_REDIRECTS - 1 },
            ),
            None => Err(cat2("failed building endpoint URL for ", path)),
        }
    }

    /// Asks whose token is used.
    pub fn whoami(&self) -> (r: ApiRequest)
        ensures
            asks(r, ApiMethod::Get, "/api/v1/user"@, ApiBody::Nothing),
    {
        let path = "/api/v1/user".to_owned();
        plain(ApiMethod::Get, path)
    }

    /// Asks for the hooks of the whole forge.
    pub fn list_admin_hooks(&self) -> (r: ApiRequest)
        ensures
            asks(r, ApiMethod::Get, "/api/v1/admin/hooks"@, ApiBody::Nothing),
    {
        let path = "/api/v1/admin/hooks".to_owned();
        plain(ApiMethod::Get, path)
    }

    /// Asks for a hook of the whole forge.
    pub fn create_admin_hook(&self, url: &str, secret: &Option<String>, events: &[&str]) -> (r: ApiRequest)
        ensures
            asks(
                r,
                ApiMethod::Post,
                "/api/v1/admin/hooks"@,
                ApiBody::Hook {
                    kind: "gitea"@,
                    url: url@,
                    content_type: "json"@,
                    secret: opt_view(*secret),
                    events: str_views(events@),
                    active: true,
                },
            ),
    {
        let path = "/api/v1/admin/hooks".to_owned();
        let list = texts(events);
        ApiRequest {
            method: ApiMethod::Post,
            path,
            body: ApiBody::Hook {
                kind: "gitea".to_owned(),
                url: url.to_owned(),
                content_type: "json".to_owned(),
                secret: clone_opt(secret),
                events: list,
                active: true,
            },
        }
    }

    /// Asks for the repositories of a user.
    pub fn list_user_repos(&self, user: &str, limit: u32) -> (r: ApiRequest)
        ensures
            asks(
                r,
                ApiMethod::Get,
                "/api/v1/users/"@ + user@ + "/repos?limit="@ + decimal(limit as nat),
                ApiBody::Nothing,
            ),
    {
        let n = u64_text(limit as u64);
        let path = cat4("/api/v1/users/", user, "/repos?limit=", n.as_str());
        plain(ApiMethod::Get, path)
    }

    /// Asks for the hooks of a repository.
    pub fn list_repo_hooks(&self, repo: &RepoRef) -> (r: ApiRequest)
        ensures
            asks(r, ApiMethod::Get, repo_path(*repo) + "/hooks?limit=1000"@, ApiBody::Nothing),
    {
        let base = path_of_repo(repo);
        let path = cat2(base.as_str(), "/hooks?limit=1000");
        plain(ApiMethod::Get, path)
    }

    /// Asks for a hook of a repository.
    pub fn create_repo_hook(
        &self,
        repo: &RepoRef,
        url: &str,
        secret: &Option<String>,
        events: &[&str],
    ) -> (r: ApiRequest)
        ensures
            asks(
                r,
                ApiMethod::Post,
                repo_path(*repo) + "/hooks"@,
                ApiBody::Hook {
                    kind: "forgejo"@,
                    url: url@,
                    content_type: "json"@,
                    secret: opt_view(*secret),
                    events: str_views(events@),
                    active: true,
                },
            ),
    {
        let base = path_of_repo(repo);
        let path = cat2(base.as_str(), "/hooks");
        let list = texts(events);
        ApiRequest {
            method: ApiMethod::Post,
            path,
            body: ApiBody::Hook {
                kind: "forgejo".to_owned(),
                url: url.to_owned(),
                content_type: "json".to_owned(),
                secret: clone_opt(secret),
                events: list,
                active: true,
            },
        }
    }

    /// Asks for a pull request.
    pub fn create_pull_request(
        &self,
        repo: &RepoRef,
        title: &str,
        head: &str,
        base: &str,
        body: &str,
    ) -> (r: ApiRequest)
        ensures
            asks(
                r,
                ApiMethod::Post,
                repo_path(*repo) + "/pulls"@,
                ApiBody::PullRequest { title: title@, head: head@, base: base@, body: body@ },
            ),
    {
        let at = path_of_repo(repo);
        let path = cat2(at.as_str(), "/pulls");
        ApiRequest {
            method: ApiMethod::Post,
            path,
            body: ApiBody::PullRequest {
                title: title.to_owned(),
                head: head.to_owned(),
                base: base.to_owned(),
                body: body.to_owned(),
            },
        }
    }

    /// Asks for the pull requests of a repository.
    pub fn list_pull_requests(&self, repo: &RepoRef, state: &str, limit: u32) -> (r: ApiRequest)
        ensures
            asks(
                r,
                ApiMethod::Get,
                repo_path(*repo) + "/pulls?state="@ + state@ + "&limit="@ + decimal(limit as nat),
                ApiBody::Nothing,
            ),
    {
        let base = path_of_repo(repo);
        let n = u64_text(limit as u64);
        let path = cat5(base.as_str(), "/pulls?state=", state, "&limit=", n.as_str());
        plain(ApiMethod::Get, path)
    }

    /// Asks to merge a pull request.
    pub fn merge_pull_request(
        &self,
        repo: &RepoRef,
        pr_number: u64,
        method: MergePullMethod,
        head_commit_id: &Option<String>,
        delete_branch_after_merge: bool,
    ) -> (r: ApiRequest)
        ensures
            asks(
                r,
                ApiMethod::Post,
                repo_path(*repo) + "/pulls/"@ + decimal(pr_number as nat) + "/merge"@,
                ApiBody::Merge {
                    method,
                    head_commit_id: opt_view(*head_commit_id),
                    delete_branch_after_merge,
                },
            ),
    {
        let base = path_of_repo(repo);
        let n = u64_text(pr_number);
        let path = cat4(base.as_str(), "/pulls/", n.as_str(), "/merge");
        ApiRequest {
            method: ApiMethod::Post,
            path,
            body: ApiBody::Merge {
                method,
                head_commit_id: clone_opt(head_commit_id),
                delete_branch_after_merge,
            },
        }
    }

    /// Asks for a repository.
    pub fn get_repo(&self, repo: &RepoRef) -> (r: ApiRequest)
        ensures
            asks(r, ApiMethod::Get, repo_path(*repo), ApiBody::Nothing),
    {
        let path = path_of_repo(repo);
        plain(ApiMethod::Get, path)
    }

    /// Asks for a label of a repository.
    pub fn create_label(&self, repo: &RepoRef, body: &CreateLabelBody<'_>) -> (r: ApiRequest)
        ensures
            asks(
                r,
                ApiMethod::Post,
                repo_path(*repo) + "/labels"@,
                ApiBody::Label {
                    name: body.name@,
                    color: body.color@,
                    description: body.description@,
                    exclusive: body.exclusive,
                },
            ),
    {
        let base = path_of_repo(repo);
        let path = cat2(base.as_str(), "/labels");
        ApiRequest {
            method: ApiMethod::Post,
            path,
            body: ApiBody::Label {
                name: body.name.to_owned(),
                color: body.color.to_owned(),
                description: body.description.to_owned(),
                exclusive: body.exclusive,
            },
        }
    }

    /// Asks for the issues of a repository.
    pub fn list_issues(&self, repo: &RepoRef, state: &str, limit: u32) -> (r: ApiRequest)
        ensures
            asks(
                r,
                ApiMethod::Get,
                repo_path(*repo) + "/issues?state="@ + state@ + "&limit="@ + decimal(limit as nat),
                ApiBody::Nothing,
            ),
    {
        let base = path_of_repo(repo);
        let n = u64_text(limit as u64);
        let path = cat5(base.as_str(), "/issues?state=", state, "&limit=", n.as_str());
        plain(ApiMethod::Get, path)
    }

    /// Asks for an issue.
    pub fn get_issue(&self, issue: &IssueRef) -> (r: ApiRequest)
        ensures
            asks(r, ApiMethod::Get, issue_path(*issue), ApiBody::Nothing),
    {
        let path = path_of_issue(issue);
        plain(ApiMethod::Get, path)
    }

    /// Asks for a new issue.
    pub fn create_issue(&self, repo: &RepoRef, title: &str, body: &str) -> (r: ApiRequest)
        ensures
            asks(
                r,
                ApiMethod::Post,
                repo_path(*repo) + "/issues"@,
                ApiBody::Issue { title: title@, body: body@ },
            ),
    {
        let base = path_of_repo(repo);
        let path = cat2(base.as_str(), "/issues");
        ApiRequest {
            method: ApiMethod::Post,
            path,
            body: ApiBody::Issue { title: title.to_owned(), body: body.to_owned() },
        }
    }

    /// Asks to give an issue these labels and no others.
    pub fn replace_issue_label_ids(&self, issue: &IssueRef, label_ids: Vec<u64>) -> (r: ApiRequest)
        ensures
            asks(r, ApiMethod::Put, issue_path(*issue) + "/labels"@, ApiBody::Labels(label_ids)),
    {
        let base = path_of_issue(issue);
        let path = cat2(base.as_str(), "/labels");
        ApiRequest { method: ApiMethod::Put, path, body: ApiBody::Labels(label_ids) }
    }

    /// Asks to take a label from an issue.
    pub fn remove_issue_label(&self, issue: &IssueRef, label_id: u64) -> (r: ApiRequest)
        ensures
            asks(
                r,
                ApiMethod::Delete,
                issue_path(*issue) + "/labels/"@ + decimal(label_id as nat),
                ApiBody::Nothing,
            ),
    {
        let base = path_of_issue(issue);
        let n = u64_text(label_id);
        let path = cat3(base.as_str(), "/labels/", n.as_str());
        plain(ApiMethod::Delete, path)
    }

    /// Asks to open or close an issue.
    pub fn set_issue_open_state(&self, issue: &IssueRef, state: OpenState) -> (r: ApiRequest)
        ensures
            asks(r, ApiMethod::Patch, issue_path(*issue), ApiBody::State(state)),
    {
        let path = path_of_issue(issue);
        ApiRequest { method: ApiMethod::Patch, path, body: ApiBody::State(state) }
    }

    /// Asks to change the title or the body of an issue.
    pub fn update_issue(
        &self,
        issue: &IssueRef,
        title: &Option<String>,
        body: &Option<String>,
    ) -> (r: ApiRequest)
        ensures
            asks(
                r,
                ApiMethod::Patch,
                issue_path(*issue),
                ApiBody::IssueEdit { title: opt_view(*title), body: opt_view(*body) },
            ),
    {
        let path = path_of_issue(issue);
        ApiRequest {
            method: ApiMethod::Patch,
            path,
            body: ApiBody::IssueEdit { title: clone_opt(title), body: clone_opt(body) },
        }
    }

    /// Asks to assign an issue.
    pub fn set_issue_assignees(&self, issue: &IssueRef, assignees: Vec<String>) -> (r: ApiRequest)
        ensures
            asks(r, ApiMethod::Patch, issue_path(*issue), ApiBody::Assignees(views(assignees@))),
    {
        let path = path_of_issue(issue);
        ApiRequest { method: ApiMethod::Patch, path, body: ApiBody::Assignees(assignees) }
    }

    /// Asks to comment on an issue.
    pub fn comment_issue(&self, issue: &IssueRef, body: &str) -> (r: ApiRequest)
        ensures
            asks(r, ApiMethod::Post, issue_path(*issue) + "/comments"@, ApiBody::Comment(body@)),
    {
        let base = path_of_issue(issue);
        let path = cat2(base.as_str(), "/comments");
        ApiRequest { method: ApiMethod::Post, path, body: ApiBody::Comment(body.to_owned()) }
    }
}

/// What an answer says of whether a repository is there: one without an error that it is, one that nothing
/// was found that it is not, and any other nothing.
pub open spec fn repo_there(status: Option<u16>) -> Option<bool> {
    match status {
        None => Some(true),
        Some(404) => Some(false),
        Some(_) => None,
    }
}

/// What is made of the answer to the asking for a repository: one that the forge does not know is no
/// error.
pub fn repo_found(status: Option<u16>) -> (r: Option<bool>)
    ensures
        r == repo_there(status),
        r == (match status {
            None => Some(true),
            Some(404) => Some(false),
            Some(_) => None,
        }),
{
    match status {
        None => Some(true),
        Some(s) => if s == 404 {
            Some(false)
        } else {
            None
        },
    }
}

impl ForgejoClient {
    /// The request that makes a repository, where it is not there: only below the default owner.
    pub fn ensure_repo(&self, repo: &RepoRef, found: bool, default_owner: &str, description: &str) -> (r:
        Result<Option<ApiRequest>, String>)
        ensures
            match r {
                Ok(None) => found,
                Ok(Some(q)) => !found && repo.owner@ == default_owner@ && asks(
                    q,
                    ApiMethod::Post,
                    "/api/v1/admin/users/"@ + repo.owner@ + "/repos"@,
                    ApiBody::Repo {
                        name: repo.repo@,
                        description: description@,
                        private: true,
                        auto_init: true,
                    },
                ),
                Err(e) => !found && repo.owner@ != default_owner@ && e@ == "repo owner "@
                    + repo.owner@ + " is not current auth owner "@ + default_owner@
                    + "; repo auto-create currently supports default owner only"@,
            },
    {
        if found {
            return Ok(None);
        }
        if !str_eq(repo.owner.as_str(), default_owner) {
            return Err(
                cat5(
                    "repo owner ",
                    repo.owner.as_str(),
                    " is not current auth owner ",
                    default_owner,
                    "; repo auto-create currently supports default owner only",
                ),
            );
        }
        let path = cat3("/api/v1/admin/users/", repo.owner.as_str(), "/repos");
        let body = ApiBody::Repo {
            name: repo.repo.clone(),
            description: description.to_owned(),
            private: true,
            auto_init: true,
        };
        Ok(Some(ApiRequest { method: ApiMethod::Post, path, body }))
    }

    /// The request for a page of the labels of a repository. After the last page that may be asked for,
    /// there is none.
    pub fn list_labels(&self, repo: &RepoRef, page: u64) -> (r: Result<ApiRequest, String>)
        ensures
            asks_for_labels(*repo, page, r),
    {
        if page > LABEL_MAX_PAGES {
            return Err(
                cat5(
                    "label listing for ",
                    repo.owner.as_str(),
                    "/",
                    repo.repo.as_str(),
                    " exceeded pagination safety cap (200 pages)",
                ),
            );
        }
        let base = path_of_repo(repo);
        let limit = u64_text(LABEL_PAGE_LIMIT);
        let n = u64_text(page);
        let path = cat5(base.as_str(), "/labels?limit=", limit.as_str(), "&page=", n.as_str());
        Ok(plain(ApiMethod::Get, path))
    }

    /// Takes in a page of the labels of a repository: an empty one ends the list, and after another the
    /// next one is asked for.
    pub fn labels_listed(
        &self,
        repo: &RepoRef,
        labels: &mut Vec<ApiLabel>,
        page: u64,
        rows: Vec<ApiLabel>,
    ) -> (r: Option<Result<ApiRequest, String>>)
        requires
            page <= LABEL_MAX_PAGES,
        ensures
            final(labels)@ == old(labels)@ + rows@,
            match r {
                None => rows@.len() == 0,
                Some(q) => rows@.len() > 0 && asks_for_labels(*repo, (page + 1) as u64, q),
            },
    {
        if rows.len() == 0 {
            proof {
                assert(old(labels)@ + rows@ =~= old(labels)@);
            }
            return None;
        }
        let mut rows = rows;
        labels.append(&mut rows);
        Some(self.list_labels(repo, page + 1))
    }

    /// The label of the name among those of a repository, or the request that makes it.
    pub fn ensure_label(&self, labels: &Vec<ApiLabel>, repo: &RepoRef, body: &CreateLabelBody<'_>) -> (r:
        Result<u64, ApiRequest>)
        ensures
            match r {
                Ok(id) => exists|i: int|
                    0 <= i < labels@.len() && (#[trigger] labels@[i]).name@ == body.name@ && id
                        == labels@[i].id && forall|j: int|
                        0 <= j < i ==> (#[trigger] labels@[j]).name@ != body.name@,
                Err(q) => (forall|i: int|
                    0 <= i < labels@.len() ==> (#[trigger] labels@[i]).name@ != body.name@) && asks(
                    q,
                    ApiMethod::Post,
                    repo_path(*repo) + "/labels"@,
                    ApiBody::Label {
                        name: body.name@,
                        color: body.color@,
                        description: body.description@,
                        exclusive: body.exclusive,
                    },
                ),
            },
    {
        let mut i: usize = 0;
        while i < labels.len()
            invariant
                i <= labels@.len(),
                forall|j: int| 0 <= j < i ==> (#[trigger] labels@[j]).name@ != body.name@,
            decreases labels.len() - i,
        {
            if str_eq(labels[i].name.as_str(), body.name) {
                return Ok(labels[i].id);
            }
            i = i + 1;
        }
        Err(self.create_label(repo, body))
    }

    /// The request that gives an issue more labels, where there are some.
    pub fn add_issue_label_ids(&self, issue: &IssueRef, label_ids: Vec<u64>) -> (r: Option<ApiRequest>)
        ensures
            label_ids@.len() == 0 ==> r is None,
            label_ids@.len() > 0 ==> (r matches Some(q) && asks(
                q,
                ApiMethod::Post,
                issue_path(*issue) + "/labels"@,
                ApiBody::Labels(label_ids),
            )),
    {
        if label_ids.len() == 0 {
            return None;
        }
        let base = path_of_issue(issue);
        let path = cat2(base.as_str(), "/labels");
        Some(ApiRequest { method: ApiMethod::Post, path, body: ApiBody::Labels(label_ids) })
    }
}

/// What is said of a body that is not the JSON that was expected.
pub fn json_failure(method: ApiMethod, path: &str, body: &str) -> (r: String)
    ensures
        r@ == "failed parsing JSON response for "@ + method.word() + " "@ + path@ + ": "@
            + first_chars(body@, 200),
{
    let head = str_first_chars(body, 200);
    cat6(
        "failed parsing JSON response for ",
        method.as_str(),
        " ",
        path,
        ": ",
        head.as_str(),
    )
}

/// The login that the forge gives for a token, as it gives it, and none where its answer has none; or
/// what is said of an answer that is not JSON, and why it is not.
pub fn whoami_answer(path: &str, body: &str) -> (r: Result<Option<String>, (String, String)>)
    ensures
        match json_text_at(body@, "login"@) {
            Ok(login) => r matches Ok(x) && opt_view(x) == login,
            Err(cause) => r matches Err(e) && e.0@ == "failed parsing JSON response for "@
                + ApiMethod::Get.word() + " "@ + path@ + ": "@ + first_chars(body@, 200) && e.1@
                == cause,
        },
{
    match json_text(body, "login") {
        Ok(login) => Ok(login),
        Err(cause) => Err((json_failure(ApiMethod::Get, path, body), cause)),
    }
}

/// One call makes ten requests at most, whatever the forge answers.
pub proof fn law_calls_end(start: Sending<Seq<char>>, replies: Seq<ApiReply<Seq<char>>>)
    requires
        start.left == 9,
    ensures
        chain(start, replies) matches Some(s) ==> replies.len() <= 9 && s.left == 9 - replies.len(),
{
    lemma_chain(start, replies);
}

/// The call after some answers, where each of them led to another request.
pub open spec fn chain(s: Sending<Seq<char>>, replies: Seq<ApiReply<Seq<char>>>) -> Option<
    Sending<Seq<char>>,
>
    decreases replies.len(),
{
    if replies.len() == 0 {
        Some(s)
    } else {
        match sent(s, replies[0]) {
            SendStep::Request(n) => chain(n, replies.drop_first()),
            _ => None,
        }
    }
}

/// Each answer that leads to another request uses one up.
proof fn lemma_chain(s: Sending<Seq<char>>, replies: Seq<ApiReply<Seq<char>>>)
    ensures
        chain(s, replies) matches Some(t) ==> replies.len() <= s.left && t.left == s.left
            - replies.len(),
    decreases replies.len(),
{
    if replies.len() > 0 {
        if let SendStep::Request(n) = sent(s, replies[0]) {
            lemma_chain(n, replies.drop_first());
        }
    }
}

/// An answer is a success exactly where its status says so and its body could be read; one with any other
/// status that is no redirect is an error of the forge, told as it is.
pub proof fn law_answers_are_told_by_their_status(
    s: Sending<Seq<char>>,
    status: u16,
    location: Option<Seq<char>>,
    body: Seq<char>,
)
    ensures
        ({
            let r = sent(s, ApiReply::Response { status, location, body: Some(body) });
            &&& 200 <= status < 300 ==> r == (SendStep::<Seq<char>>::Success {
                path: shown_path(s.url),
                body,
            })
            &&& status < 200 || status >= 400 ==> r == (SendStep::<Seq<char>>::Http {
                status,
                method: s.method.word(),
                path: shown_path(s.url),
                body,
            })
            &&& 300 <= status < 400 ==> !(r is Success) && !(r is Http)
        }),
        status < 300 || status >= 400 ==> sent(
            s,
            ApiReply::Response { status, location, body: None },
        ) is Error,
        sent(s, ApiReply::Failed) is Error,
{
}

/// A redirect is followed exactly where it stays with the forge and its API, requests are left, and it is
/// of a reading request or only gives the repository its proper name.
pub proof fn law_proper_redirects_are_followed(
    s: Sending<Seq<char>>,
    status: u16,
    location: Seq<char>,
    target: Seq<char>,
    body: Option<Seq<char>>,
)
    requires
        300 <= status < 400,
        url_joined(s.url, location) == Some(target),
    ensures
        ({
            let r = sent(s, ApiReply::Response { status, location: Some(location), body });
            let proper = origin_shared(s.base_url, target) && (url_path(target) matches Some(p)
                && "/api/v1/"@.is_prefix_of(p)) && (s.method == ApiMethod::Get || (url_route(s.url) is Some
                && url_route(s.url) == url_route(target))) && s.left > 0;
            &&& proper ==> r == SendStep::Request(
                Sending { method: s.method, base_url: s.base_url, url: target, left: (s.left - 1) as u8 },
            )
            &&& !proper ==> r is Error
        }),
        sent(s, ApiReply::Response { status, location: None, body }) is Error,
{
}

/// What a path of the API names below a repository does not depend on the repository: for each owner and
/// name it is what stands behind them, with its query.
pub proof fn law_routes_are_below_the_repository(
    owner: Seq<char>,
    repo: Seq<char>,
    part: Seq<char>,
    query: Seq<char>,
)
    requires
        owner.len() > 0,
        repo.len() > 0,
        part.len() > 0,
        query.len() > 0,
        forall|i: int| 0 <= i < owner.len() ==> #[trigger] owner[i] != '/',
        forall|i: int| 0 <= i < repo.len() ==> #[trigger] repo[i] != '/',
        forall|i: int| 0 <= i < part.len() ==> #[trigger] part[i] != '/',
    ensures
        ({
            let path = "/api/v1/repos/"@ + (owner + seq!['/'] + (repo + seq!['/'] + part));
            &&& repo_route(path, None) == Some(part)
            &&& repo_route(path, Some(query)) == Some(part + "?"@ + query)
        }),
        repo_route("/api/v1/repos/"@ + owner, None) is None,
        !"/api/v1/repos/"@.is_prefix_of(part) ==> repo_route(part, None) is None,
{
    reveal_strlit("/");
    let rest = owner + seq!['/'] + (repo + seq!['/'] + part);
    crate::text::law_prefixes_come_off("/api/v1/repos/"@, rest);
    crate::text::law_prefixes_come_off("/api/v1/repos/"@, owner);
    crate::text::law_parts_are_between_separators(owner, repo + seq!['/'] + part, '/');
    crate::text::law_parts_are_between_separators(repo, part, '/');
    crate::text::law_parts_are_between_separators(part, part, '/');
    assert(split(rest, '/') =~= seq![owner, repo, part]);
    let all = seq![owner, repo, part];
    assert(all.drop_last() =~= seq![owner, repo]);
    assert(seq![owner, repo].drop_last() =~= seq![owner]);
    assert(seq![owner].drop_last() =~= Seq::empty());
    assert(filled(Seq::<Seq<char>>::empty()) =~= Seq::empty());
    assert(filled(seq![owner]) =~= seq![owner]);
    assert(filled(seq![owner, repo]) =~= seq![owner, repo]);
    assert(filled(all) =~= all);
    assert(all.skip(2) =~= seq![part]);
    assert(join(seq![part], "/"@) == part);
    assert(part.last() == part[part.len() - 1]);
    assert(!"/"@.contains(part.last()));
    assert(trim_back_of(part, "/"@) == part);
}

/// The forge keeps a repository under its owner and its name, and an issue under its repository and its
/// number; the methods have their words.
pub proof fn law_requests_go_to_their_places(repo: RepoRef, issue: IssueRef)
    ensures
        repo_path(repo) == "/api/v1/repos/"@ + repo.owner@ + "/"@ + repo.repo@,
        issue_path(issue) == "/api/v1/repos/"@ + issue.repo.owner@ + "/"@ + issue.repo.repo@
            + "/issues/"@ + decimal(issue.number as nat),
        ApiMethod::Get.word() == "GET"@,
        ApiMethod::Post.word() == "POST"@,
        ApiMethod::Put.word() == "PUT"@,
        ApiMethod::Patch.word() == "PATCH"@,
        ApiMethod::Delete.word() == "DELETE"@,
{
}

/// Two hundred pages of labels are asked for at most, a thousand labels each.
pub proof fn law_label_pages_are_limited(repo: RepoRef, page: u64, r: Result<ApiRequest, String>)
    requires
        asks_for_labels(repo, page, r),
    ensures
        r is Ok <==> page <= 200,
        r matches Ok(q) ==> q.method == ApiMethod::Get && q.body is Nothing && q.path@
            == "/api/v1/repos/"@ + repo.owner@ + "/"@ + repo.repo@ + "/labels?limit="@ + decimal(1000)
            + "&page="@ + decimal(page as nat),
{
}

/// Only an answer that nothing was found says that a repository is not there; any other error says nothing.
pub proof fn law_missing_repositories_are_not_found(status: u16)
    ensures
        repo_there(None) == Some(true),
        repo_there(Some(status)) == Some(false) <==> status == 404,
        repo_there(Some(status)) != Some(true),
{
}

/// Empty segments of a path do not matter, and the others stay in their order.
pub proof fn law_empty_segments_do_not_matter(segments: Seq<Seq<char>>, part: Seq<char>)
    ensures
        filled(Seq::<Seq<char>>::empty()) == Seq::<Seq<char>>::empty(),
        filled(segments.push(Seq::empty())) == filled(segments),
        part.len() > 0 ==> filled(segments.push(part)) == filled(segments).push(part),
{
    assert(segments.push(Seq::empty()).drop_last() =~= segments);
    assert(segments.push(part).drop_last() =~= segments);
}

} // verus!
