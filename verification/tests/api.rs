use orchd::api::{
    json_failure, repo_api_route, repo_found, send_success, whoami_answer, ApiBody, ApiLabel,
    ApiMethod, ApiReply, CreateLabelBody, ForgejoClient, OpenState, SendStep, Sending,
};
use orchd::pulls::MergePullMethod;
use orchd::repo::forgejo_http_git_url;
use orchd::role::whoami_login_with_token;
use orchd::types::{IssueRef, RepoRef};
use orchd::urls::{api_path_with_query, same_origin};

fn forge() -> ForgejoClient {
    ForgejoClient::new("http://127.0.0.1:3000/")
}

fn repo() -> RepoRef {
    RepoRef::new("main", "forgejo-agent")
}

fn issue() -> IssueRef {
    IssueRef { repo: repo(), number: 7 }
}

fn redirect(location: &str) -> ApiReply<String> {
    ApiReply::Response { status: 307, location: Some(location.to_string()), body: None }
}

fn answer(status: u16, body: &str) -> ApiReply<String> {
    ApiReply::Response { status, location: None, body: Some(body.to_string()) }
}

fn start(method: ApiMethod, path: &str) -> Sending<String> {
    match forge().endpoint(method, path) {
        Ok(s) => s,
        Err(e) => panic!("{e}"),
    }
}

fn said(step: SendStep<String>) -> String {
    match step {
        SendStep::Error(e) => e,
        _ => panic!("expected an error"),
    }
}

#[test]
fn requests_name_their_paths() {
    let f = forge();
    assert_eq!(f.whoami().path, "/api/v1/user");
    assert_eq!(f.list_admin_hooks().path, "/api/v1/admin/hooks");
    assert_eq!(f.list_user_repos("main", 1000).path, "/api/v1/users/main/repos?limit=1000");
    assert_eq!(f.list_repo_hooks(&repo()).path, "/api/v1/repos/main/forgejo-agent/hooks?limit=1000");
    assert_eq!(f.get_repo(&repo()).path, "/api/v1/repos/main/forgejo-agent");
    assert_eq!(
        f.list_pull_requests(&repo(), "open", 50).path,
        "/api/v1/repos/main/forgejo-agent/pulls?state=open&limit=50"
    );
    assert_eq!(
        f.list_issues(&repo(), "open", 100).path,
        "/api/v1/repos/main/forgejo-agent/issues?state=open&limit=100"
    );
    assert_eq!(f.get_issue(&issue()).path, "/api/v1/repos/main/forgejo-agent/issues/7");
    let q = f.remove_issue_label(&issue(), 3);
    assert_eq!(q.method, ApiMethod::Delete);
    assert_eq!(q.path, "/api/v1/repos/main/forgejo-agent/issues/7/labels/3");
    let q = f.set_issue_open_state(&issue(), OpenState::Closed);
    assert!(matches!(q.body, ApiBody::State(OpenState::Closed)));
    let q = f.comment_issue(&issue(), "done");
    assert_eq!(q.path, "/api/v1/repos/main/forgejo-agent/issues/7/comments");
    assert!(matches!(q.body, ApiBody::Comment(t) if t == "done"));
}

#[test]
fn requests_carry_their_bodies() {
    let f = forge();
    let q = f.create_pull_request(&repo(), "t", "h", "b", "text");
    assert_eq!(q.method, ApiMethod::Post);
    assert!(matches!(q.body, ApiBody::PullRequest { title, head, base, body }
        if title == "t" && head == "h" && base == "b" && body == "text"));
    let q = f.merge_pull_request(&repo(), 9, MergePullMethod::Squash, &Some("abc".to_string()), true);
    assert_eq!(q.path, "/api/v1/repos/main/forgejo-agent/pulls/9/merge");
    assert!(matches!(q.body, ApiBody::Merge { head_commit_id: Some(id), delete_branch_after_merge: true, .. }
        if id == "abc"));
    let q = f.create_repo_hook(&repo(), "http://u", &None, &["issues", "push"]);
    assert!(matches!(q.body, ApiBody::Hook { kind, content_type, events, active: true, .. }
        if kind == "forgejo" && content_type == "json" && events == vec!["issues", "push"]));
    let q = f.create_admin_hook("http://u", &Some("s".to_string()), &[]);
    assert!(matches!(q.body, ApiBody::Hook { kind, secret: Some(_), .. } if kind == "gitea"));
    let q = f.update_issue(&issue(), &None, &Some("b".to_string()));
    assert_eq!(q.method, ApiMethod::Patch);
    assert!(matches!(q.body, ApiBody::IssueEdit { title: None, body: Some(_) }));
    let q = f.set_issue_assignees(&issue(), vec!["codex-dev".to_string()]);
    assert!(matches!(q.body, ApiBody::Assignees(v) if v == vec!["codex-dev"]));
    let q = f.create_issue(&repo(), "t", "b");
    assert!(matches!(q.body, ApiBody::Issue { .. }));
    let q = f.replace_issue_label_ids(&issue(), vec![1, 2]);
    assert_eq!(q.method, ApiMethod::Put);
    assert!(matches!(q.body, ApiBody::Labels(v) if v == vec![1, 2]));
    assert!(f.add_issue_label_ids(&issue(), vec![]).is_none());
    assert!(f.add_issue_label_ids(&issue(), vec![4]).is_some());
}

#[test]
fn labels_are_listed_and_made_once() {
    let f = forge();
    let q = match f.list_labels(&repo(), 2) {
        Ok(q) => q,
        Err(e) => panic!("{e}"),
    };
    assert_eq!(q.path, "/api/v1/repos/main/forgejo-agent/labels?limit=1000&page=2");
    match f.list_labels(&repo(), 201) {
        Ok(_) => panic!("too many pages"),
        Err(e) => assert_eq!(
            e,
            "label listing for main/forgejo-agent exceeded pagination safety cap (200 pages)"
        ),
    }
    let mut labels = vec![ApiLabel { id: 3, name: "a".to_string() }];
    let rows = vec![ApiLabel { id: 4, name: "b".to_string() }];
    match f.labels_listed(&repo(), &mut labels, 1, rows) {
        Some(Ok(q)) => {
            assert_eq!(q.path, "/api/v1/repos/main/forgejo-agent/labels?limit=1000&page=2");
        }
        _ => panic!("another page may follow"),
    }
    assert!(f.labels_listed(&repo(), &mut labels, 2, vec![]).is_none());
    let ids: Vec<u64> = labels.iter().map(|label| label.id).collect();
    assert_eq!(ids, vec![3, 4]);
    let rows = vec![ApiLabel { id: 5, name: "c".to_string() }];
    let mut many: Vec<ApiLabel> = vec![];
    assert!(matches!(f.labels_listed(&repo(), &mut many, 200, rows), Some(Err(_))));
    let b = CreateLabelBody { name: "b", color: "fff", description: "d", exclusive: true };
    assert!(matches!(f.ensure_label(&labels, &repo(), &b), Ok(4)));
    let c = CreateLabelBody { name: "c", color: "fff", description: "d", exclusive: true };
    match f.ensure_label(&labels, &repo(), &c) {
        Ok(_) => panic!("there is no such label"),
        Err(q) => assert_eq!(q.path, "/api/v1/repos/main/forgejo-agent/labels"),
    }
}

#[test]
fn repositories_are_made_below_the_default_owner() {
    let f = forge();
    assert_eq!(repo_found(None), Some(true));
    assert_eq!(repo_found(Some(404)), Some(false));
    assert_eq!(repo_found(Some(500)), None);
    assert!(matches!(f.ensure_repo(&repo(), true, "x", "d"), Ok(None)));
    match f.ensure_repo(&repo(), false, "main", "d") {
        Ok(Some(q)) => assert_eq!(q.path, "/api/v1/admin/users/main/repos"),
        _ => panic!("expected a request"),
    }
    match f.ensure_repo(&repo(), false, "x", "d") {
        Err(e) => assert_eq!(
            e,
            "repo owner main is not current auth owner x; repo auto-create currently supports default owner only"
        ),
        _ => panic!("expected an error"),
    }
}

#[test]
fn answers_end_a_call() {
    match send_success(start(ApiMethod::Get, "/api/v1/user?x=1"), answer(200, "{}")) {
        SendStep::Success { path, body } => {
            assert_eq!(path, "/api/v1/user?x=1");
            assert_eq!(body, "{}");
        }
        _ => panic!("expected a success"),
    }
    match send_success(start(ApiMethod::Post, "/api/v1/user"), answer(404, "gone")) {
        SendStep::Http { status: 404, method, path, body } => {
            assert_eq!((method.as_str(), path.as_str(), body.as_str()), ("POST", "/api/v1/user", "gone"));
        }
        _ => panic!("expected an error of the forge"),
    }
    assert_eq!(
        said(send_success(start(ApiMethod::Get, "/api/v1/user"), ApiReply::Failed)),
        "request failed: GET http://127.0.0.1:3000/api/v1/user"
    );
}

#[test]
fn redirects_are_followed_within_the_api() {
    let step = send_success(start(ApiMethod::Get, "/api/v1/user"), redirect("/api/v1/users/main"));
    match step {
        SendStep::Request(s) => {
            assert_eq!(s.url, "http://127.0.0.1:3000/api/v1/users/main");
            assert_eq!(s.left, 8);
        }
        _ => panic!("expected another request"),
    }
    assert_eq!(
        said(send_success(start(ApiMethod::Get, "/api/v1/user"), redirect("http://other/api/v1/user"))),
        "refusing cross-origin redirect to http://other/api/v1/user"
    );
    assert_eq!(
        said(send_success(start(ApiMethod::Get, "/api/v1/user"), redirect("/login"))),
        "refusing non-API redirect to http://127.0.0.1:3000/login"
    );
    let none = ApiReply::Response { status: 302, location: None, body: None };
    assert_eq!(
        said(send_success(start(ApiMethod::Get, "/api/v1/user"), none)),
        "redirect response missing Location header"
    );
}

#[test]
fn changes_follow_only_renamed_repositories() {
    let renamed = redirect("/api/v1/repos/new/name/issues?state=open");
    let s = start(ApiMethod::Post, "/api/v1/repos/old/name/issues?state=open");
    assert!(matches!(send_success(s, renamed), SendStep::Request(_)));
    let other = redirect("/api/v1/repos/new/name/pulls");
    assert_eq!(
        said(send_success(start(ApiMethod::Post, "/api/v1/repos/old/name/issues"), other)),
        "unexpected redirect for POST /api/v1/repos/old/name/issues -> /api/v1/repos/new/name/pulls"
    );
}

#[test]
fn calls_end_after_ten_requests() {
    let mut s = start(ApiMethod::Get, "/api/v1/user");
    let mut requests = 1;
    loop {
        match send_success(s, redirect("/api/v1/user")) {
            SendStep::Request(n) => {
                s = n;
                requests += 1;
            }
            step => {
                assert_eq!(said(step), "too many redirects for GET http://127.0.0.1:3000/api/v1/user");
                break;
            }
        }
    }
    assert_eq!(requests, 10);
}

#[test]
fn routes_are_what_stands_below_a_repository() {
    assert_eq!(repo_api_route("/api/v1/repos/o/r/issues/", &None), Some("issues".to_string()));
    assert_eq!(
        repo_api_route("/api/v1/repos/o/r/a//b", &Some("q=1".to_string())),
        Some("a/b?q=1".to_string())
    );
    assert_eq!(repo_api_route("/api/v1/repos/o/r", &Some(String::new())), Some(String::new()));
    assert_eq!(repo_api_route("/api/v1/repos/o", &None), None);
    assert_eq!(repo_api_route("/api/v1/user", &None), None);
}

#[test]
fn urls_are_taken_apart() {
    assert!(same_origin("http://h/a", "http://h:80/b"));
    assert!(!same_origin("http://h/a", "https://h/a"));
    assert!(!same_origin("http://h/a", "http://i/a"));
    assert_eq!(api_path_with_query("http://h/a/b?c=d#e"), Some("/a/b?c=d".to_string()));
    assert_eq!(api_path_with_query("no url"), None);
    match forgejo_http_git_url("http://h:3000/forge/", "codex-dev", "main/a") {
        Ok(url) => assert_eq!(url, "http://codex-dev@h:3000/forge/main/a.git"),
        Err(_) => panic!("expected a url"),
    }
}

#[test]
fn logins_are_read_from_json() {
    assert_eq!(whoami_answer("/api/v1/user", "{\"login\":\"Main\"}"), Ok(Some("Main".to_string())));
    assert_eq!(whoami_answer("/api/v1/user", "{\"login\":1}"), Ok(None));
    match whoami_answer("/api/v1/user", "oops") {
        Err((said, cause)) => {
            assert_eq!(said, "failed parsing JSON response for GET /api/v1/user: oops");
            assert_eq!(cause, "expected value at line 1 column 1");
        }
        Ok(_) => panic!("that is no JSON"),
    }
    assert_eq!(whoami_login_with_token(Ok(Some(" Main ".to_string()))), Ok("main".to_string()));
    assert_eq!(
        whoami_login_with_token(Ok(None)),
        Err("whoami response missing login field".to_string())
    );
    assert_eq!(whoami_login_with_token(Err("e".to_string())), Err("e".to_string()));
    let long = "y".repeat(300);
    assert_eq!(
        json_failure(ApiMethod::Put, "/p", &long),
        format!("failed parsing JSON response for PUT /p: {}", "y".repeat(200))
    );
}
