//! Deploys of the managed repository: which pushes call for one, and how one is carried out.

use crate::documents::{json_integer, json_integer_at};
use crate::paths::{join_path, joined};
use crate::repo::{beside, path_beside, DEFAULT_GIT_BASE_BRANCH};
use crate::text::{
    after_prefix, blank, byte_len, cat3, cat4, cat7, chars_of, decimal_int, first_at, fit,
    fitting, has_key, i64_text, law_fit_is_the_most, lemma_first_at_is, opt_view, str_blank,
    str_eq, str_strip_prefix, str_trim, str_words, trim, views, words,
};
use crate::types::{repo_parts, RepoRef};
use crate::webhook::WebhookPayload;
use vstd::prelude::*;
use vstd::string::*;

verus! {

/// The owner of the managed repository, where nothing else is set.
pub const DEPLOY_REPO_OWNER: &'static str = "main";

/// The name of the managed repository, where nothing else is set.
pub const DEPLOY_REPO_NAME: &'static str = "forgejo-agent";

/// Where the orchestrator is installed, where nothing else is set.
pub const DEFAULT_ORCHD_BIN: &'static str = "~/.local/bin/orchd";

/// Where the forge's command line tool is installed, where nothing else is set.
pub const DEFAULT_FORGEJOCTL_BIN: &'static str = "~/.local/bin/forgejoctl";

/// The owner and name of the managed repository: as set, where that is a repository.
pub open spec fn managed(setting: Option<Seq<char>>) -> (Seq<char>, Seq<char>) {
    let fallback = (DEPLOY_REPO_OWNER@, DEPLOY_REPO_NAME@);
    match setting {
        Some(raw) => match repo_parts(trim(raw)) {
            Some(p) => p,
            None => fallback,
        },
        None => fallback,
    }
}

/// The managed repository.
pub fn managed_repo_from_override(raw: Option<&str>) -> (r: RepoRef)
    ensures
        r.parts() == managed(
            match raw {
                Some(x) => Some(x@),
                None => None,
            },
        ),
{
    if let Some(raw) = raw {
        if let Ok(parsed) = RepoRef::parse(str_trim(raw)) {
            return parsed;
        }
    }
    RepoRef::new(DEPLOY_REPO_OWNER, DEPLOY_REPO_NAME)
}

/// Tells whether a repository is the managed one.
pub fn is_managed_repo(repo: &RepoRef, managed_repo: &RepoRef) -> (r: bool)
    ensures
        r == (repo.parts() == managed_repo.parts()),
{
    str_eq(repo.owner.as_str(), managed_repo.owner.as_str()) && str_eq(
        repo.repo.as_str(),
        managed_repo.repo.as_str(),
    )
}

/// A commit that stands for none: forty zeros.
pub open spec fn null_sha(value: Seq<char>) -> bool {
    trim(value).len() == 40 && forall|i: int| 0 <= i < 40 ==> #[trigger] trim(value)[i] == '0'
}

/// Tells whether a commit stands for none.
pub fn is_null_sha(value: &str) -> (r: bool)
    ensures
        r == null_sha(value@),
{
    let cs = chars_of(str_trim(value));
    if cs.len() != 40 {
        return false;
    }
    let mut i: usize = 0;
    while i < 40
        invariant
            i <= 40,
            cs@.len() == 40,
            cs@ == trim(value@),
            forall|k: int| 0 <= k < i ==> #[trigger] trim(value@)[k] == '0',
        decreases 40 - i,
    {
        if cs[i] != '0' {
            proof {
                assert(trim(value@)[i as int] != '0');
            }
            return false;
        }
        i = i + 1;
    }
    true
}

/// The short form of a commit: as much of it as twelve bytes hold.
pub open spec fn shortened(value: Seq<char>) -> Seq<char> {
    trim(value).take(fit(trim(value), 12) as int)
}

/// A commit can be shortened: it has no more than twelve bytes, or its first twelve bytes are whole
/// characters.
pub open spec fn can_shorten(value: Seq<char>) -> bool {
    byte_len(trim(value)) <= 12 || byte_len(shortened(value)) == 12
}

/// Tells whether a commit can be shortened.
pub fn sha_can_be_shortened(value: &str) -> (r: bool)
    ensures
        r == can_shorten(value@),
{
    let cs = chars_of(str_trim(value));
    let (k, used) = fitting(&cs, 12);
    proof {
        law_fit_is_the_most(trim(value@), 12);
    }
    k == cs.len() || used == 12
}

/// The short form of a commit.
pub fn short_sha(value: &str) -> (r: String)
    requires
        can_shorten(value@),
    ensures
        r@ == shortened(value@),
        byte_len(trim(value@)) <= 12 ==> r@ == trim(value@),
        byte_len(trim(value@)) > 12 ==> byte_len(r@) == 12,
{
    let trimmed = str_trim(value);
    let cs = chars_of(trimmed);
    let (k, _used) = fitting(&cs, 12);
    proof {
        law_fit_is_the_most(trim(value@), 12);
        assert(trim(value@).take(trim(value@).len() as int) =~= trim(value@));
        assert(trim(value@).subrange(0, k as int) =~= trim(value@).take(k as int));
    }
    trimmed.substring_char(0, k).to_owned()
}

/// A path beside the database, or why there is none.
pub open spec fn beside_text(db_path: Seq<char>, name: Seq<char>) -> Result<Seq<char>, Seq<char>> {
    match beside(db_path, name) {
        Some(p) => Ok(p),
        None => Err("db path has no parent"@),
    }
}

/// A path beside the database, or why there is none.
fn beside_db(db_path: &str, name: &str) -> (r: Result<String, String>)
    ensures
        match beside_text(db_path@, name@) {
            Ok(p) => r matches Ok(x) && x@ == p,
            Err(m) => r matches Err(e) && e@ == m,
        },
{
    match path_beside(db_path, name) {
        Ok(p) => Ok(p),
        Err(_) => Err("db path has no parent".to_owned()),
    }
}

/// Where the managed repository is checked out.
pub fn deploy_checkout_path(db_path: &str, repo: &RepoRef) -> (r: Result<String, String>)
    ensures
        match beside_text(db_path@, "deploy-checkouts"@) {
            Ok(root) => r matches Ok(x) && x@ == joined(joined(root, repo.owner@), repo.repo@),
            Err(m) => r matches Err(e) && e@ == m,
        },
{
    match beside_db(db_path, "deploy-checkouts") {
        Ok(root) => {
            let a = join_path(root.as_str(), repo.owner.as_str());
            Ok(join_path(a.as_str(), repo.repo.as_str()))
        },
        Err(e) => Err(e),
    }
}

/// Where the releases of a branch are kept.
pub open spec fn release_root(root: Seq<char>, owner: Seq<char>, repo: Seq<char>, branch: Seq<char>) -> Seq<
    char,
> {
    joined(joined(joined(root, owner), repo), branch)
}

/// Where the releases of a branch are kept.
pub fn deploy_release_root(db_path: &str, repo: &RepoRef, branch: &str) -> (r: Result<String, String>)
    ensures
        match beside_text(db_path@, "deploy-releases"@) {
            Ok(root) => r matches Ok(x) && x@ == release_root(root, repo.owner@, repo.repo@, branch@),
            Err(m) => r matches Err(e) && e@ == m,
        },
{
    match beside_db(db_path, "deploy-releases") {
        Ok(root) => {
            let a = join_path(root.as_str(), repo.owner.as_str());
            let b = join_path(a.as_str(), repo.repo.as_str());
            Ok(join_path(b.as_str(), branch))
        },
        Err(e) => Err(e),
    }
}

/// The name of the log of a deploy.
pub open spec fn log_name(id: i64) -> Seq<char> {
    "deploy-"@ + decimal_int(id as int) + ".log"@
}

/// The branch of a repository that is deployed: as bound, else the default.
pub open spec fn deploy_branch(branches: Seq<(String, String)>, repo: Seq<char>) -> Seq<char> {
    let keys = branches.map_values(|p: (String, String)| p.0@);
    if has_key(keys, repo) && !blank(branches[first_at(keys, repo)].1@) {
        branches[first_at(keys, repo)].1@
    } else {
        DEFAULT_GIT_BASE_BRANCH@
    }
}

/// The branch of a repository that is deployed.
pub fn deploy_branch_for_repo(branches: &Vec<(String, String)>, repo_full_name: &str) -> (r: String)
    ensures
        r@ == deploy_branch(branches@, repo_full_name@),
{
    let ghost keys = branches@.map_values(|p: (String, String)| p.0@);
    let mut i: usize = 0;
    while i < branches.len()
        invariant
            i <= branches@.len(),
            keys == branches@.map_values(|p: (String, String)| p.0@),
            forall|k: int| 0 <= k < i ==> #[trigger] keys[k] != repo_full_name@,
        decreases branches.len() - i,
    {
        let (repo, branch) = &branches[i];
        proof {
            assert(keys[i as int] == branches@[i as int].0@);
        }
        if str_eq(repo.as_str(), repo_full_name) {
            proof {
                lemma_first_at_is(keys, repo_full_name@, i as int);
            }
            if str_blank(branch.as_str()) {
                return DEFAULT_GIT_BASE_BRANCH.to_owned();
            }
            return branch.clone();
        }
        i = i + 1;
    }
    proof {
        lemma_first_at_is(keys, repo_full_name@, i as int);
    }
    DEFAULT_GIT_BASE_BRANCH.to_owned()
}

/// The branch and commit that a push asks to deploy: it moves the expected branch to a commit.
pub open spec fn push_target(payload: WebhookPayload, expected: Seq<char>) -> Option<
    (Seq<char>, Seq<char>),
> {
    if payload.deleted == Some(true) {
        None
    } else {
        match (opt_view(payload.push_ref), opt_view(payload.after)) {
            (Some(r), Some(sha)) => match after_prefix(trim(r), "refs/heads/"@) {
                Some(branch) => if trim(branch) == expected && trim(sha).len() > 0 && !null_sha(
                    trim(sha),
                ) {
                    Some((trim(branch), trim(sha)))
                } else {
                    None
                },
                None => None,
            },
            _ => None,
        }
    }
}

/// The branch and commit that a push asks to deploy.
pub fn extract_push_target(payload: &WebhookPayload, expected_branch: &str) -> (r: Option<
    (String, String),
>)
    ensures
        match push_target(*payload, expected_branch@) {
            Some(t) => r matches Some(x) && (x.0@, x.1@) == t,
            None => r is None,
        },
{
    if let Some(true) = payload.deleted {
        return None;
    }
    if let Some(push_ref) = &payload.push_ref {
        if let Some(rest) = str_strip_prefix(str_trim(push_ref.as_str()), "refs/heads/") {
            let branch = str_trim(rest);
            if !str_eq(branch, expected_branch) {
                return None;
            }
            if let Some(after) = &payload.after {
                let sha = str_trim(after.as_str());
                if sha.is_empty() || is_null_sha(sha) {
                    return None;
                }
                return Some((branch.to_owned(), sha.to_owned()));
            }
        }
    }
    None
}

/// The deploy that a push to a repository calls for.
pub open spec fn push_deploy(
    repo: Seq<char>,
    payload: WebhookPayload,
    setting: Option<Seq<char>>,
    branches: Seq<(String, String)>,
) -> Option<(Seq<char>, Seq<char>)> {
    match repo_parts(repo) {
        Some(p) => if p == managed(setting) {
            push_target(payload, deploy_branch(branches, repo))
        } else {
            None
        },
        None => None,
    }
}

/// The deploy that a push calls for: one of the managed repository to its branch.
pub fn enqueue_push_event(
    repo_full_name: &str,
    payload: &WebhookPayload,
    managed_repo_override: Option<&str>,
    branches: &Vec<(String, String)>,
) -> (r: Option<(String, String)>)
    ensures
        match push_deploy(
            repo_full_name@,
            *payload,
            match managed_repo_override {
                Some(x) => Some(x@),
                None => None,
            },
            branches@,
        ) {
            Some(t) => r matches Some(x) && (x.0@, x.1@) == t,
            None => r is None,
        },
{
    match RepoRef::parse(repo_full_name) {
        Ok(repo) => {
            let managed_repo = managed_repo_from_override(managed_repo_override);
            if !is_managed_repo(&repo, &managed_repo) {
                return None;
            }
            let branch = deploy_branch_for_repo(branches, repo_full_name);
            extract_push_target(payload, branch.as_str())
        },
        Err(_) => None,
    }
}

/// The commit that a listing of a remote branch begins with.
pub fn read_remote_branch_head(stdout: &str) -> (r: Option<String>)
    ensures
        opt_view(r) == (if words(stdout@).len() > 0 {
            Some(words(stdout@)[0])
        } else {
            None
        }),
{
    let ws = str_words(stdout);
    proof {
        assert(ws@.len() == views(ws@).len());
    }
    if ws.len() > 0 {
        proof {
            assert(views(ws@)[0] == ws@[0]@);
        }
        Some(ws[0].clone())
    } else {
        None
    }
}

/// What is done about the head of the deployed branch.
pub enum HeadStep {
    /// Nothing: there is no head, or it is deployed.
    Settled,
    /// Looked whether a deploy of the head is under way.
    AskActive(String),
}

/// The head of the remote branch that is still to be deployed, where it is known and not deployed.
pub open spec fn undeployed(remote: Option<Seq<char>>, deployed: Option<Seq<char>>) -> Option<Seq<char>> {
    if remote == deployed {
        None
    } else {
        remote
    }
}

/// What is done about the head of the deployed branch: one that is not what was last deployed is looked
/// into.
pub fn head_needs_deploy(remote_head: &Option<String>, latest_deployed: &Option<String>) -> (r:
    HeadStep)
    ensures
        match undeployed(opt_view(*remote_head), opt_view(*latest_deployed)) {
            Some(h) => r matches HeadStep::AskActive(x) && x@ == h,
            None => r is Settled,
        },
        match *remote_head {
            Some(h) => if opt_view(*latest_deployed) == Some(h@) {
                r is Settled
            } else {
                r matches HeadStep::AskActive(x) && x@ == h@
            },
            None => r is Settled,
        },
{
    match remote_head {
        Some(h) => {
            if crate::text::opt_is(latest_deployed, h.as_str()) {
                return HeadStep::Settled;
            }
            HeadStep::AskActive(h.clone())
        },
        None => HeadStep::Settled,
    }
}

/// The delivery under which the head of a repository is enqueued, unless a deploy of it is under way.
pub open spec fn reconcile_delivery(repo: Seq<char>, active: bool, now: i64) -> Option<Seq<char>> {
    if active {
        None
    } else {
        Some("reconcile:"@ + repo + ":"@ + decimal_int(now as int))
    }
}

/// The delivery under which a deploy of the head is queued, where none is under way.
pub fn reconcile_head_enqueue(repo_full_name: &str, active: bool, now_timestamp: i64) -> (r: Option<
    String,
>)
    ensures
        opt_view(r) == reconcile_delivery(repo_full_name@, active, now_timestamp),
        opt_view(r) == (if active {
            None
        } else {
            Some("reconcile:"@ + repo_full_name@ + ":"@ + decimal_int(now_timestamp as int))
        }),
{
    if active {
        return None;
    }
    let n = i64_text(now_timestamp);
    Some(cat4("reconcile:", repo_full_name, ":", n.as_str()))
}

/// What is wrong with a release for the database: its schema is older than that of the database, or it
/// needs a newer one.
pub open spec fn schema_fault(db: i64, latest: i64, min: i64) -> Option<Seq<char>> {
    if latest < db {
        Some(
            "schema downgrade blocked: source schema "@ + decimal_int(latest as int)
                + " < db schema "@ + decimal_int(db as int),
        )
    } else if db < min {
        Some(
            "schema incompatible: db schema "@ + decimal_int(db as int)
                + " < binary minimum compatible "@ + decimal_int(min as int),
        )
    } else {
        None
    }
}

/// The numbers of a contract, both of which must be there: the newest schema of a release, and the oldest
/// that it works with.
pub open spec fn contract_of(latest: Option<i64>, min: Option<i64>) -> Result<(i64, i64), Seq<char>> {
    match (latest, min) {
        (None, _) => Err("schema-contract JSON missing latest"@),
        (Some(_), None) => Err("schema-contract JSON missing min_compatible"@),
        (Some(l), Some(m)) => Ok((l, m)),
    }
}

/// The numbers of a contract, both of which must be there.
pub fn contract_numbers(latest: Option<i64>, min_compatible: Option<i64>) -> (r: Result<
    (i64, i64),
    String,
>)
    ensures
        match contract_of(latest, min_compatible) {
            Ok(c) => r == Ok::<(i64, i64), String>(c),
            Err(m) => r matches Err(e) && e@ == m,
        },
{
    match (latest, min_compatible) {
        (None, _) => Err("schema-contract JSON missing latest".to_owned()),
        (Some(_), None) => Err("schema-contract JSON missing min_compatible".to_owned()),
        (Some(l), Some(m)) => Ok((l, m)),
    }
}

/// What is said of a contract that is not JSON.
pub open spec fn contract_fault(raw: Seq<char>, cause: Seq<char>) -> Seq<char> {
    "invalid schema-contract JSON: "@ + trim(raw) + ": "@ + cause
}

/// The contract that a release prints.
pub fn schema_contract_from_built_orchd(raw: &str) -> (r: Result<(i64, i64), String>)
    ensures
        match (json_integer_at(raw@, "latest"@), json_integer_at(raw@, "min_compatible"@)) {
            (Ok(latest), Ok(min)) => match contract_of(latest, min) {
                Ok(c) => r == Ok::<(i64, i64), String>(c),
                Err(m) => r matches Err(e) && e@ == m,
            },
            (Err(cause), _) => r matches Err(e) && e@ == contract_fault(raw@, cause),
            (Ok(_), Err(cause)) => r matches Err(e) && e@ == contract_fault(raw@, cause),
        },
{
    match (json_integer(raw, "latest"), json_integer(raw, "min_compatible")) {
        (Ok(latest), Ok(min)) => contract_numbers(latest, min),
        (Err(e), _) => Err(cat4("invalid schema-contract JSON: ", str_trim(raw), ": ", e.as_str())),
        (Ok(_), Err(e)) => Err(
            cat4("invalid schema-contract JSON: ", str_trim(raw), ": ", e.as_str()),
        ),
    }
}

/// Holds a release to the schema of the database.
pub fn enforce_schema_contract_guard(db_schema: i64, latest: i64, min: i64) -> (r: Result<
    (i64, i64, i64),
    String,
>)
    ensures
        match schema_fault(db_schema, latest, min) {
            Some(m) => r matches Err(e) && e@ == m,
            None => r == Ok::<(i64, i64, i64), String>((latest, min, db_schema)),
        },
{
    if latest < db_schema {
        let a = i64_text(latest);
        let b = i64_text(db_schema);
        return Err(
            cat4(
                "schema downgrade blocked: source schema ",
                a.as_str(),
                " < db schema ",
                b.as_str(),
            ),
        );
    }
    if db_schema < min {
        let a = i64_text(db_schema);
        let b = i64_text(min);
        return Err(
            cat4(
                "schema incompatible: db schema ",
                a.as_str(),
                " < binary minimum compatible ",
                b.as_str(),
            ),
        );
    }
    Ok((latest, min, db_schema))
}

/// A release is let through exactly where the schema of the database lies between the oldest that the
/// release works with and its own.
pub proof fn law_schema_guard_admits_the_range(db: i64, latest: i64, min: i64)
    ensures
        schema_fault(db, latest, min) is None <==> min <= db <= latest,
{
}

/// The exit status of a command as logs show it.
pub open spec fn status_text(code: Option<i32>) -> Seq<char> {
    match code {
        Some(c) => "Some("@ + decimal_int(c as int) + ")"@,
        None => "None"@,
    }
}

/// The exit status of a command as logs show it.
pub fn exit_text(code: Option<i32>) -> (r: String)
    ensures
        r@ == status_text(code),
{
    match code {
        Some(c) => {
            let n = i64_text(c as i64);
            cat3("Some(", n.as_str(), ")")
        },
        None => "None".to_owned(),
    }
}

/// What a command adds to the log of a deploy.
pub fn append_command_log(label: &str, code: Option<i32>, stdout: &str, stderr: &str) -> (r: String)
    ensures
        r@ == "== "@ + label@ + " ==\nstatus="@ + status_text(code) + "\n--- stdout ---\n"@ + stdout@
            + "\n--- stderr ---\n"@ + stderr@ + "\n"@,
{
    let status = exit_text(code);
    let mut m = cat7(
        "== ",
        label,
        " ==\nstatus=",
        status.as_str(),
        "\n--- stdout ---\n",
        stdout,
        "\n--- stderr ---\n",
    );
    m.append(stderr);
    m.append("\n");
    m
}

/// A deploy that was queued.
pub struct DeployJob {
    pub id: i64,
    pub repo_full_name: String,
    pub target_branch: String,
    pub target_sha: String,
    pub source_delivery_id: Option<String>,
    pub source_actor_login: Option<String>,
    pub attempt_count: i64,
}

/// Which answer the taking into service of a release waits for.
#[derive(Clone, Copy, PartialEq, Eq, Structural)]
pub enum ActivatePhase {
    Directory,
    BackUpOrchd,
    BackUpForgejoctl,
    InstallOrchd,
    InstallForgejoctl,
    Restart,
    RestoreOrchd,
    RestoreForgejoctl,
    RestartAgain,
    Detect,
    Over,
}

/// Where the taking into service of a release stands.
#[verifier::ext_equal]
pub struct Activation<S> {
    pub phase: ActivatePhase,
    pub had_orchd: bool,
    pub had_forgejoctl: bool,
    pub error: S,
}

/// One of the two installed programs.
#[derive(Clone, Copy, PartialEq, Eq, Structural)]
pub enum Program {
    Orchd,
    Forgejoctl,
}

/// What is done next.
#[verifier::ext_equal]
pub enum ActivateAction<S> {
    /// Make the directory for the backups.
    MakeDirectory,
    /// Copy the installed program to the backups; answered with whether there was one.
    BackUp(Program),
    /// Install the program from the release.
    Install(Program),
    /// Restart the service and see that it runs. The log gets the text first.
    Restart(S),
    /// Install the program from the backups. The log gets the text first.
    Restore(Program, S),
    /// See how the service stands; answered with a word.
    DetectStatus,
    /// The release is in service.
    InService,
    /// It is not, with the error.
    GiveUp(S),
}

/// An answer from outside.
#[verifier::ext_equal]
pub enum ActivateReply<S> {
    Done,
    There(bool),
    Word(S),
    Failed(S),
}

/// The answers that fit a phase.
pub open spec fn activation_fits<S>(phase: ActivatePhase, reply: ActivateReply<S>) -> bool {
    match phase {
        ActivatePhase::BackUpOrchd => reply is There || reply is Failed,
        ActivatePhase::BackUpForgejoctl => reply is There || reply is Failed,
        ActivatePhase::Detect => reply is Word,
        ActivatePhase::Over => false,
        _ => reply is Done || reply is Failed,
    }
}

/// A step in contracts.
pub type ActivateStepSpec = (Activation<Seq<char>>, ActivateAction<Seq<char>>);

/// A step at run time.
pub type ActivateStep = (Activation<String>, ActivateAction<String>);

/// The view of a state.
pub open spec fn activation_view(s: Activation<String>) -> Activation<Seq<char>> {
    Activation {
        phase: s.phase,
        had_orchd: s.had_orchd,
        had_forgejoctl: s.had_forgejoctl,
        error: s.error@,
    }
}

/// The view of a step.
pub open spec fn activate_step_view(r: ActivateStep) -> ActivateStepSpec {
    (
        activation_view(r.0),
        match r.1 {
            ActivateAction::MakeDirectory => ActivateAction::MakeDirectory,
            ActivateAction::BackUp(p) => ActivateAction::BackUp(p),
            ActivateAction::Install(p) => ActivateAction::Install(p),
            ActivateAction::Restart(t) => ActivateAction::Restart(t@),
            ActivateAction::Restore(p, t) => ActivateAction::Restore(p, t@),
            ActivateAction::DetectStatus => ActivateAction::DetectStatus,
            ActivateAction::InService => ActivateAction::InService,
            ActivateAction::GiveUp(t) => ActivateAction::GiveUp(t@),
        },
    )
}

/// The view of an answer.
pub open spec fn activate_reply_view(r: ActivateReply<String>) -> ActivateReply<Seq<char>> {
    match r {
        ActivateReply::Done => ActivateReply::Done,
        ActivateReply::There(b) => ActivateReply::There(b),
        ActivateReply::Word(t) => ActivateReply::Word(t@),
        ActivateReply::Failed(t) => ActivateReply::Failed(t@),
    }
}

/// The service did not come back with the release, and stands as the word says.
pub open spec fn not_in_service(s: Activation<Seq<char>>, rollback: Seq<char>) -> ActivateStepSpec {
    (
        Activation { phase: ActivatePhase::Over, ..s },
        ActivateAction::GiveUp(
            "service restart failed after install: "@ + s.error + "; rollback="@ + rollback,
        ),
    )
}

/// The restoring of a program, where there was one, else what follows it. The log gets the text first.
pub open spec fn restoring(s: Activation<Seq<char>>, log: Seq<char>, orchd: bool) -> ActivateStepSpec {
    if orchd && s.had_orchd {
        (
            Activation { phase: ActivatePhase::RestoreOrchd, ..s },
            ActivateAction::Restore(Program::Orchd, log),
        )
    } else if s.had_forgejoctl {
        (
            Activation { phase: ActivatePhase::RestoreForgejoctl, ..s },
            ActivateAction::Restore(Program::Forgejoctl, log),
        )
    } else {
        (
            Activation { phase: ActivatePhase::RestartAgain, ..s },
            ActivateAction::Restart(log),
        )
    }
}

/// How the taking into service goes on from an answer: where the service does not come back, what was
/// installed before is restored.
pub open spec fn activate_next(
    s: Activation<Seq<char>>,
    reply: ActivateReply<Seq<char>>,
) -> ActivateStepSpec {
    match s.phase {
        ActivatePhase::Directory => match reply {
            ActivateReply::Failed(e) => (
                Activation { phase: ActivatePhase::Over, ..s },
                ActivateAction::GiveUp(e),
            ),
            _ => (
                Activation { phase: ActivatePhase::BackUpOrchd, ..s },
                ActivateAction::BackUp(Program::Orchd),
            ),
        },
        ActivatePhase::BackUpOrchd => match reply {
            ActivateReply::There(b) => (
                Activation { phase: ActivatePhase::BackUpForgejoctl, had_orchd: b, ..s },
                ActivateAction::BackUp(Program::Forgejoctl),
            ),
            ActivateReply::Failed(e) => (
                Activation { phase: ActivatePhase::Over, ..s },
                ActivateAction::GiveUp(e),
            ),
            _ => arbitrary(),
        },
        ActivatePhase::BackUpForgejoctl => match reply {
            ActivateReply::There(b) => (
                Activation { phase: ActivatePhase::InstallOrchd, had_forgejoctl: b, ..s },
                ActivateAction::Install(Program::Orchd),
            ),
            ActivateReply::Failed(e) => (
                Activation { phase: ActivatePhase::Over, ..s },
                ActivateAction::GiveUp(e),
            ),
            _ => arbitrary(),
        },
        ActivatePhase::InstallOrchd => match reply {
            ActivateReply::Failed(e) => (
                Activation { phase: ActivatePhase::Over, ..s },
                ActivateAction::GiveUp(e),
            ),
            _ => (
                Activation { phase: ActivatePhase::InstallForgejoctl, ..s },
                ActivateAction::Install(Program::Forgejoctl),
            ),
        },
        ActivatePhase::InstallForgejoctl => match reply {
            ActivateReply::Failed(e) => (
                Activation { phase: ActivatePhase::Over, ..s },
                ActivateAction::GiveUp(e),
            ),
            _ => (
                Activation { phase: ActivatePhase::Restart, ..s },
                ActivateAction::Restart(Seq::empty()),
            ),
        },
        ActivatePhase::Restart => match reply {
            ActivateReply::Failed(e) => restoring(
                Activation { error: e, ..s },
                "restart failed; entering rollback: "@ + e + "\n"@,
                true,
            ),
            _ => (Activation { phase: ActivatePhase::Over, ..s }, ActivateAction::InService),
        },
        ActivatePhase::RestoreOrchd => restoring(s, Seq::empty(), false),
        ActivatePhase::RestoreForgejoctl => (
            Activation { phase: ActivatePhase::RestartAgain, ..s },
            ActivateAction::Restart(Seq::empty()),
        ),
        ActivatePhase::RestartAgain => match reply {
            ActivateReply::Failed(_) => (
                Activation { phase: ActivatePhase::Detect, ..s },
                ActivateAction::DetectStatus,
            ),
            _ => not_in_service(s, "rollback_restored"@),
        },
        ActivatePhase::Detect => match reply {
            ActivateReply::Word(w) => not_in_service(s, w),
            _ => arbitrary(),
        },
        ActivatePhase::Over => (s, ActivateAction::InService),
    }
}

/// Begins to take a release into service.
pub fn begin_activation() -> (r: ActivateStep)
    ensures
        activate_step_view(r) == (
            Activation {
                phase: ActivatePhase::Directory,
                had_orchd: false,
                had_forgejoctl: false,
                error: Seq::<char>::empty(),
            },
            ActivateAction::<Seq<char>>::MakeDirectory,
        ),
{
    let s = Activation {
        phase: ActivatePhase::Directory,
        had_orchd: false,
        had_forgejoctl: false,
        error: String::new(),
    };
    proof {
        assert(s.error@ =~= Seq::<char>::empty());
    }
    (s, ActivateAction::MakeDirectory)
}

/// The state with a phase, and an action.
fn activate_to(s: Activation<String>, phase: ActivatePhase, action: ActivateAction<String>) -> (r:
    ActivateStep)
    ensures
        r.0 == (Activation { phase, ..s }),
        r.1 == action,
{
    let mut s = s;
    s.phase = phase;
    (s, action)
}

/// The service did not come back with the release.
fn activate_gives_up(s: Activation<String>, rollback: &str) -> (r: ActivateStep)
    ensures
        activate_step_view(r) == not_in_service(activation_view(s), rollback@),
{
    let m = cat4(
        "service restart failed after install: ",
        s.error.as_str(),
        "; rollback=",
        rollback,
    );
    activate_to(s, ActivatePhase::Over, ActivateAction::GiveUp(m))
}

/// The restoring of a program, where there was one, else what follows it.
fn restore(s: Activation<String>, log: String, orchd: bool) -> (r: ActivateStep)
    ensures
        activate_step_view(r) == restoring(activation_view(s), log@, orchd),
{
    if orchd && s.had_orchd {
        activate_to(s, ActivatePhase::RestoreOrchd, ActivateAction::Restore(Program::Orchd, log))
    } else if s.had_forgejoctl {
        activate_to(
            s,
            ActivatePhase::RestoreForgejoctl,
            ActivateAction::Restore(Program::Forgejoctl, log),
        )
    } else {
        activate_to(s, ActivatePhase::RestartAgain, ActivateAction::Restart(log))
    }
}

/// An empty text.
fn no_text() -> (r: String)
    ensures
        r@ == Seq::<char>::empty(),
{
    let t = String::new();
    proof {
        assert(t@ =~= Seq::<char>::empty());
    }
    t
}

/// Takes the taking into service of a release on from an answer.
pub fn install_release_with_rollback(s: Activation<String>, reply: ActivateReply<String>) -> (r:
    ActivateStep)
    requires
        activation_fits(s.phase, reply),
    ensures
        activate_step_view(r) == activate_next(activation_view(s), activate_reply_view(reply)),
{
    match s.phase {
        ActivatePhase::Directory => match reply {
            ActivateReply::Failed(e) => activate_to(
                s,
                ActivatePhase::Over,
                ActivateAction::GiveUp(e),
            ),
            _ => activate_to(
                s,
                ActivatePhase::BackUpOrchd,
                ActivateAction::BackUp(Program::Orchd),
            ),
        },
        ActivatePhase::BackUpOrchd => match reply {
            ActivateReply::There(b) => {
                let mut s = s;
                s.had_orchd = b;
                activate_to(
                    s,
                    ActivatePhase::BackUpForgejoctl,
                    ActivateAction::BackUp(Program::Forgejoctl),
                )
            },
            ActivateReply::Failed(e) => activate_to(
                s,
                ActivatePhase::Over,
                ActivateAction::GiveUp(e),
            ),
            _ => activate_to(s, ActivatePhase::Over, ActivateAction::InService),
        },
        ActivatePhase::BackUpForgejoctl => match reply {
            ActivateReply::There(b) => {
                let mut s = s;
                s.had_forgejoctl = b;
                activate_to(
                    s,
                    ActivatePhase::InstallOrchd,
                    ActivateAction::Install(Program::Orchd),
                )
            },
            ActivateReply::Failed(e) => activate_to(
                s,
                ActivatePhase::Over,
                ActivateAction::GiveUp(e),
            ),
            _ => activate_to(s, ActivatePhase::Over, ActivateAction::InService),
        },
        ActivatePhase::InstallOrchd => match reply {
            ActivateReply::Failed(e) => activate_to(
                s,
                ActivatePhase::Over,
                ActivateAction::GiveUp(e),
            ),
            _ => activate_to(
                s,
                ActivatePhase::InstallForgejoctl,
                ActivateAction::Install(Program::Forgejoctl),
            ),
        },
        ActivatePhase::InstallForgejoctl => match reply {
            ActivateReply::Failed(e) => activate_to(
                s,
                ActivatePhase::Over,
                ActivateAction::GiveUp(e),
            ),
            _ => activate_to(s, ActivatePhase::Restart, ActivateAction::Restart(no_text())),
        },
        ActivatePhase::Restart => match reply {
            ActivateReply::Failed(e) => {
                let log = cat3("restart failed; entering rollback: ", e.as_str(), "\n");
                let mut s = s;
                s.error = e;
                restore(s, log, true)
            },
            _ => activate_to(s, ActivatePhase::Over, ActivateAction::InService),
        },
        ActivatePhase::RestoreOrchd => restore(s, no_text(), false),
        ActivatePhase::RestoreForgejoctl => activate_to(
            s,
            ActivatePhase::RestartAgain,
            ActivateAction::Restart(no_text()),
        ),
        ActivatePhase::RestartAgain => match reply {
            ActivateReply::Failed(_) => activate_to(
                s,
                ActivatePhase::Detect,
                ActivateAction::DetectStatus,
            ),
            _ => activate_gives_up(s, "rollback_restored"),
        },
        ActivatePhase::Detect => match reply {
            ActivateReply::Word(w) => activate_gives_up(s, w.as_str()),
            _ => activate_to(s, ActivatePhase::Over, ActivateAction::InService),
        },
        ActivatePhase::Over => (s, ActivateAction::InService),
    }
}

/// How the service stands after a rollback.
pub open spec fn service_standing(active: Option<bool>) -> Seq<char> {
    match active {
        Some(true) => "service_active"@,
        Some(false) => "service_inactive"@,
        None => "service_status_unknown"@,
    }
}

/// The word for how the service stands, from whether it could be asked and whether it runs.
pub fn detect_rollback_status(active: Option<bool>) -> (r: &'static str)
    ensures
        r@ == service_standing(active),
        r@ == (match active {
            Some(true) => "service_active"@,
            Some(false) => "service_inactive"@,
            None => "service_status_unknown"@,
        }),
{
    match active {
        Some(a) => if a {
            "service_active"
        } else {
            "service_inactive"
        },
        None => "service_status_unknown",
    }
}

/// Once a service did not come back with a release, it is restarted only after each program that was
/// installed before was restored; and the release is never reported to be in service.
pub proof fn law_rollback_restores_what_was_there(
    s: Activation<Seq<char>>,
    reply: ActivateReply<Seq<char>>,
)
    requires
        activation_fits(s.phase, reply),
    ensures
        ({
            let n = activate_next(s, reply);
            &&& n.0.phase == ActivatePhase::RestartAgain ==> {
                ||| s.phase == ActivatePhase::RestoreForgejoctl && s.had_forgejoctl
                    == n.0.had_forgejoctl
                ||| s.phase == ActivatePhase::RestoreOrchd && !s.had_forgejoctl
                ||| s.phase == ActivatePhase::Restart && !s.had_orchd && !s.had_forgejoctl
            }
            &&& n.0.phase == ActivatePhase::RestoreForgejoctl ==> s.phase
                == ActivatePhase::RestoreOrchd || (s.phase == ActivatePhase::Restart
                && !s.had_orchd)
            &&& n.1 is InService ==> s.phase == ActivatePhase::Restart && reply is Done
        }),
{
}

/// A push is deployed exactly where it moves the deployed branch of the managed repository to a commit:
/// it deletes nothing, and the commit is not the one that stands for none.
pub proof fn law_pushes_of_the_managed_branch_are_deployed(
    repo: Seq<char>,
    payload: WebhookPayload,
    setting: Option<Seq<char>>,
    branches: Seq<(String, String)>,
)
    ensures
        ({
            let t = push_deploy(repo, payload, setting, branches);
            &&& t is Some <==> repo_parts(repo) == Some(managed(setting)) && payload.deleted != Some(true)
                && (payload.push_ref matches Some(r) && "refs/heads/"@.is_prefix_of(trim(r@)) && trim(
                trim(r@).skip("refs/heads/"@.len() as int),
            ) == deploy_branch(branches, repo)) && (payload.after matches Some(sha) && trim(sha@).len()
                > 0 && !null_sha(trim(sha@)))
            &&& t matches Some(x) ==> x.0 == deploy_branch(branches, repo) && x.1 == trim(
                payload.after->0@,
            )
        }),
{
}

/// The managed repository is the one that is set, where that names one, else the usual one.
pub proof fn law_the_set_repository_is_managed(raw: Seq<char>)
    ensures
        repo_parts(trim(raw)) matches Some(p) ==> managed(Some(raw)) == p,
        repo_parts(trim(raw)) is None ==> managed(Some(raw)) == ("main"@, "forgejo-agent"@),
        managed(None) == ("main"@, "forgejo-agent"@),
{
}

/// The deployed branch of a repository is that of its binding, the first of its name, else the usual one.
pub proof fn law_bound_branches_are_deployed(
    branches: Seq<(String, String)>,
    repo: Seq<char>,
    k: int,
)
    requires
        0 <= k <= branches.len(),
        k < branches.len() ==> branches[k].0@ == repo,
        forall|j: int| 0 <= j < k ==> (#[trigger] branches[j]).0@ != repo,
    ensures
        k < branches.len() && trim(branches[k].1@).len() > 0 ==> deploy_branch(branches, repo)
            == branches[k].1@,
        k == branches.len() || trim(branches[k].1@).len() == 0 ==> deploy_branch(branches, repo)
            == "main"@,
{
    let keys = branches.map_values(|p: (String, String)| p.0@);
    lemma_first_at_is(keys, repo, k);
}

/// A release is taken into service step by step: both programs are kept before either is replaced, both
/// are replaced before the service is restarted, and it is in service exactly where that restart went well.
/// Whatever fails before the restart gives the release up.
pub proof fn law_releases_are_installed_in_order(
    s: Activation<Seq<char>>,
    there: bool,
    e: Seq<char>,
)
    ensures
        s.phase == ActivatePhase::Directory ==> activate_next(s, ActivateReply::Done).1
            == ActivateAction::<Seq<char>>::BackUp(Program::Orchd),
        s.phase == ActivatePhase::BackUpOrchd ==> activate_next(s, ActivateReply::There(there)).1
            == ActivateAction::<Seq<char>>::BackUp(Program::Forgejoctl) && activate_next(
            s,
            ActivateReply::There(there),
        ).0.had_orchd == there,
        s.phase == ActivatePhase::BackUpForgejoctl ==> activate_next(s, ActivateReply::There(there)).1
            == ActivateAction::<Seq<char>>::Install(Program::Orchd) && activate_next(
            s,
            ActivateReply::There(there),
        ).0.had_forgejoctl == there && activate_next(s, ActivateReply::There(there)).0.had_orchd
            == s.had_orchd,
        s.phase == ActivatePhase::InstallOrchd ==> activate_next(s, ActivateReply::Done).1
            == ActivateAction::<Seq<char>>::Install(Program::Forgejoctl),
        s.phase == ActivatePhase::InstallForgejoctl ==> activate_next(s, ActivateReply::Done).1
            is Restart,
        s.phase == ActivatePhase::Restart ==> activate_next(s, ActivateReply::Done).1 is InService,
        s.phase == ActivatePhase::Directory || s.phase == ActivatePhase::BackUpOrchd || s.phase
            == ActivatePhase::BackUpForgejoctl || s.phase == ActivatePhase::InstallOrchd || s.phase
            == ActivatePhase::InstallForgejoctl ==> activate_next(s, ActivateReply::Failed(e)).1
            == ActivateAction::<Seq<char>>::GiveUp(e),
{
}

/// A service that does not come back gets what was installed before: the orchestrator, then the tool, as
/// far as there was one; then it is restarted, and the release is given up with the error of the restart
/// and with how the service stands.
pub proof fn law_failed_restarts_are_rolled_back(
    s: Activation<Seq<char>>,
    e: Seq<char>,
    reply: ActivateReply<Seq<char>>,
    word: Seq<char>,
)
    requires
        reply is Done || reply is Failed,
    ensures
        s.phase == ActivatePhase::Restart ==> {
            let n = activate_next(s, ActivateReply::Failed(e));
            &&& n.0.error == e
            &&& s.had_orchd ==> (n.1 matches ActivateAction::Restore(p, _) && p == Program::Orchd)
            &&& !s.had_orchd && s.had_forgejoctl ==> (n.1 matches ActivateAction::Restore(p, _) && p
                == Program::Forgejoctl)
            &&& !s.had_orchd && !s.had_forgejoctl ==> n.1 is Restart && n.0.phase
                == ActivatePhase::RestartAgain
        },
        s.phase == ActivatePhase::RestoreOrchd ==> {
            let n = activate_next(s, reply);
            &&& s.had_forgejoctl ==> (n.1 matches ActivateAction::Restore(p, _) && p
                == Program::Forgejoctl)
            &&& !s.had_forgejoctl ==> n.1 is Restart && n.0.phase == ActivatePhase::RestartAgain
            &&& n.0.error == s.error
        },
        s.phase == ActivatePhase::RestoreForgejoctl ==> activate_next(s, reply).1 is Restart
            && activate_next(s, reply).0.phase == ActivatePhase::RestartAgain && activate_next(
            s,
            reply,
        ).0.error == s.error,
        s.phase == ActivatePhase::RestartAgain ==> activate_next(s, ActivateReply::Done).1
            == ActivateAction::<Seq<char>>::GiveUp(
            "service restart failed after install: "@ + s.error + "; rollback="@
                + "rollback_restored"@,
        ) && activate_next(s, ActivateReply::Failed(e)).1 is DetectStatus,
        s.phase == ActivatePhase::Detect ==> activate_next(s, ActivateReply::Word(word)).1
            == ActivateAction::<Seq<char>>::GiveUp(
            "service restart failed after install: "@ + s.error + "; rollback="@ + word,
        ),
{
}

/// Both numbers of a contract must be there, and each is taken for itself.
pub proof fn law_contracts_are_whole(latest: Option<i64>, min: Option<i64>)
    ensures
        contract_of(latest, min) is Ok <==> latest is Some && min is Some,
        contract_of(latest, min) matches Ok(c) ==> Some(c.0) == latest && Some(c.1) == min,
{
}

/// Of ASCII characters as many fit as there are bytes.
proof fn lemma_ascii_fits(s: Seq<char>, n: nat)
    requires
        forall|i: int| 0 <= i < s.len() ==> (#[trigger] s[i] as u32) < 0x80,
    ensures
        fit(s, n) == (if s.len() <= n {
            s.len()
        } else {
            n
        }),
        byte_len(s) == s.len(),
    decreases s.len(),
{
    if s.len() > 0 {
        let t = s.drop_first();
        assert forall|i: int| 0 <= i < t.len() implies (#[trigger] t[i] as u32) < 0x80 by {
            assert(t[i] == s[i + 1]);
        }
        crate::text::lemma_byte_len_first(s);
        assert((s[0] as u32) < 0x80);
        if n > 0 {
            lemma_ascii_fits(t, (n - 1) as nat);
        } else {
            lemma_ascii_fits(t, 0);
        }
    }
}

/// A commit is shown by its first twelve characters.
pub proof fn law_commits_are_shown_short(value: Seq<char>)
    requires
        forall|i: int| 0 <= i < trim(value).len() ==> (#[trigger] trim(value)[i] as u32) < 0x80,
    ensures
        can_shorten(value),
        trim(value).len() <= 12 ==> shortened(value) == trim(value),
        trim(value).len() > 12 ==> shortened(value) == trim(value).take(12),
{
    let t = trim(value);
    lemma_ascii_fits(t, 12);
    if t.len() <= 12 {
        assert(t.take(t.len() as int) =~= t);
    } else {
        let s = t.take(12);
        assert forall|i: int| 0 <= i < s.len() implies (#[trigger] s[i] as u32) < 0x80 by {
            assert(s[i] == t[i]);
        }
        lemma_ascii_fits(s, 12);
    }
}

/// The log of a deploy is named after it, and releases are kept by owner, repository and branch.
pub proof fn law_deploys_have_their_places(
    id: i64,
    root: Seq<char>,
    owner: Seq<char>,
    repo: Seq<char>,
    branch: Seq<char>,
    code: i32,
)
    ensures
        log_name(id) == "deploy-"@ + decimal_int(id as int) + ".log"@,
        release_root(root, owner, repo, branch) == joined(joined(joined(root, owner), repo), branch),
        status_text(None) == "None"@,
        status_text(Some(code)) == "Some("@ + decimal_int(code as int) + ")"@,
{
}

/// What is asked for is what is waited for, and nothing after the end.
pub proof fn law_activations_wait_for_what_they_ask(
    s: Activation<Seq<char>>,
    reply: ActivateReply<Seq<char>>,
)
    requires
        s.phase != ActivatePhase::Over,
        activation_fits(s.phase, reply),
    ensures
        ({
            let n = activate_next(s, reply);
            let p = n.0.phase;
            &&& n.1 == ActivateAction::<Seq<char>>::BackUp(Program::Orchd) <==> p
                == ActivatePhase::BackUpOrchd
            &&& n.1 == ActivateAction::<Seq<char>>::BackUp(Program::Forgejoctl) <==> p
                == ActivatePhase::BackUpForgejoctl
            &&& n.1 == ActivateAction::<Seq<char>>::Install(Program::Orchd) <==> p
                == ActivatePhase::InstallOrchd
            &&& n.1 == ActivateAction::<Seq<char>>::Install(Program::Forgejoctl) <==> p
                == ActivatePhase::InstallForgejoctl
            &&& n.1 is Restart <==> p == ActivatePhase::Restart || p == ActivatePhase::RestartAgain
            &&& p == ActivatePhase::Restart ==> s.phase == ActivatePhase::InstallForgejoctl
            &&& (n.1 matches ActivateAction::Restore(g, _) && g == Program::Orchd) <==> p
                == ActivatePhase::RestoreOrchd
            &&& (n.1 matches ActivateAction::Restore(g, _) && g == Program::Forgejoctl) <==> p
                == ActivatePhase::RestoreForgejoctl
            &&& n.1 is DetectStatus <==> p == ActivatePhase::Detect
            &&& n.1 is InService || n.1 is GiveUp <==> p == ActivatePhase::Over
        }),
{
}

/// A head is deployed exactly where it is known and is not the one that was deployed last, unless a deploy
/// of it is under way.
pub proof fn law_new_heads_are_deployed(
    remote: Seq<char>,
    deployed: Option<Seq<char>>,
    repo: Seq<char>,
    now: i64,
)
    ensures
        undeployed(None, deployed) is None,
        deployed == Some(remote) ==> undeployed(Some(remote), deployed) is None,
        deployed != Some(remote) ==> undeployed(Some(remote), deployed) == Some(remote),
        reconcile_delivery(repo, true, now) is None,
        reconcile_delivery(repo, false, now) == Some(
            "reconcile:"@ + repo + ":"@ + decimal_int(now as int),
        ),
        service_standing(Some(true)) == "service_active"@,
        service_standing(Some(false)) == "service_inactive"@,
        service_standing(None) == "service_status_unknown"@,
{
}

/// A commit can be shown short where it is short itself, or where its first twelve bytes are whole
/// characters; nothing else can.
pub proof fn law_commits_are_cut_between_characters(value: Seq<char>)
    ensures
        byte_len(trim(value)) <= 12 ==> can_shorten(value) && shortened(value) == trim(value),
        byte_len(trim(value)) > 12 ==> (can_shorten(value) <==> byte_len(shortened(value)) == 12),
        shortened(value).is_prefix_of(trim(value)),
        byte_len(shortened(value)) <= 12,
{
    let t = trim(value);
    crate::text::law_fit_is_the_most(t, 12);
    if byte_len(t) <= 12 {
        assert(t.take(t.len() as int) =~= t);
    }
}

} // verus!
