//! The schema of the store: its tables, the columns that came later, and the steps that bring an older store
//! up to date.

use crate::migrations::{missing, LATEST_SCHEMA_VERSION};
use crate::text::{cat3, cat5, cat6, str_eq, views};
use crate::triggers::listed;
use vstd::prelude::*;
use vstd::string::*;

verus! {

/// A table of the store.
#[derive(Clone, Copy, PartialEq, Eq, Structural, Debug)]
pub enum StoreTable {
    Events,
    Decisions,
    Heartbeats,
    Reconciles,
    Dispatches,
    DispatchEvents,
    IssueRoleCursors,
    Repos,
    NotificationDeliveries,
    TriggerDispatchDedupes,
    ScheduleClaims,
    TimerContexts,
    DeployJobs,
    DeployRuns,
    DeployReleases,
}

/// A column that an older store may lack, or that it may have and is to lose.
#[derive(Clone, Copy, PartialEq, Eq, Structural, Debug)]
pub enum LateColumn {
    EventText,
    SourceCommentId,
    SourceCreatedAt,
    PayloadSha256,
    DecisionPrincipal,
    ScheduleTimerId,
    TimerContextKey,
    ResumeSessionId,
    BackendKind,
    BackendRef,
    DispatchPrincipal,
    TmuxSession,
    TmuxWindow,
    SupersededByJobId,
    WorkerIdentity,
}

impl StoreTable {
    /// The name of the table.
    pub open spec fn word(self) -> Seq<char> {
        match self {
            StoreTable::Events => "events"@,
            StoreTable::Decisions => "decisions"@,
            StoreTable::Heartbeats => "heartbeats"@,
            StoreTable::Reconciles => "reconciles"@,
            StoreTable::Dispatches => "dispatches"@,
            StoreTable::DispatchEvents => "dispatch_events"@,
            StoreTable::IssueRoleCursors => "issue_role_cursors"@,
            StoreTable::Repos => "repos"@,
            StoreTable::NotificationDeliveries => "notification_deliveries"@,
            StoreTable::TriggerDispatchDedupes => "trigger_dispatch_dedupes"@,
            StoreTable::ScheduleClaims => "schedule_claims"@,
            StoreTable::TimerContexts => "timer_contexts"@,
            StoreTable::DeployJobs => "deploy_jobs"@,
            StoreTable::DeployRuns => "deploy_runs"@,
            StoreTable::DeployReleases => "deploy_releases"@,
        }
    }

    /// The name of the table.
    pub fn name(self) -> (r: &'static str)
        ensures
            r@ == self.word(),
    {
        match self {
            StoreTable::Events => "events",
            StoreTable::Decisions => "decisions",
            StoreTable::Heartbeats => "heartbeats",
            StoreTable::Reconciles => "reconciles",
            StoreTable::Dispatches => "dispatches",
            StoreTable::DispatchEvents => "dispatch_events",
            StoreTable::IssueRoleCursors => "issue_role_cursors",
            StoreTable::Repos => "repos",
            StoreTable::NotificationDeliveries => "notification_deliveries",
            StoreTable::TriggerDispatchDedupes => "trigger_dispatch_dedupes",
            StoreTable::ScheduleClaims => "schedule_claims",
            StoreTable::TimerContexts => "timer_contexts",
            StoreTable::DeployJobs => "deploy_jobs",
            StoreTable::DeployRuns => "deploy_runs",
            StoreTable::DeployReleases => "deploy_releases",
        }
    }
}

impl LateColumn {
    /// The table of the column.
    pub open spec fn owner(self) -> StoreTable {
        match self {
            LateColumn::EventText => StoreTable::Events,
            LateColumn::SourceCommentId => StoreTable::Events,
            LateColumn::SourceCreatedAt => StoreTable::Events,
            LateColumn::PayloadSha256 => StoreTable::Events,
            LateColumn::DecisionPrincipal => StoreTable::Decisions,
            LateColumn::ScheduleTimerId => StoreTable::Decisions,
            LateColumn::TimerContextKey => StoreTable::Decisions,
            LateColumn::ResumeSessionId => StoreTable::Decisions,
            LateColumn::BackendKind => StoreTable::Dispatches,
            LateColumn::BackendRef => StoreTable::Dispatches,
            LateColumn::DispatchPrincipal => StoreTable::Dispatches,
            LateColumn::TmuxSession => StoreTable::Dispatches,
            LateColumn::TmuxWindow => StoreTable::Dispatches,
            LateColumn::SupersededByJobId => StoreTable::DeployJobs,
            LateColumn::WorkerIdentity => StoreTable::DeployJobs,
        }
    }

    /// The table of the column.
    pub fn table(self) -> (r: StoreTable)
        ensures
            r == self.owner(),
    {
        match self {
            LateColumn::EventText => StoreTable::Events,
            LateColumn::SourceCommentId => StoreTable::Events,
            LateColumn::SourceCreatedAt => StoreTable::Events,
            LateColumn::PayloadSha256 => StoreTable::Events,
            LateColumn::DecisionPrincipal => StoreTable::Decisions,
            LateColumn::ScheduleTimerId => StoreTable::Decisions,
            LateColumn::TimerContextKey => StoreTable::Decisions,
            LateColumn::ResumeSessionId => StoreTable::Decisions,
            LateColumn::BackendKind => StoreTable::Dispatches,
            LateColumn::BackendRef => StoreTable::Dispatches,
            LateColumn::DispatchPrincipal => StoreTable::Dispatches,
            LateColumn::TmuxSession => StoreTable::Dispatches,
            LateColumn::TmuxWindow => StoreTable::Dispatches,
            LateColumn::SupersededByJobId => StoreTable::DeployJobs,
            LateColumn::WorkerIdentity => StoreTable::DeployJobs,
        }
    }

    /// The name of the column, and its type.
    pub open spec fn words(self) -> (Seq<char>, Seq<char>) {
        match self {
            LateColumn::EventText => ("event_text"@, "TEXT"@),
            LateColumn::SourceCommentId => ("source_comment_id"@, "INTEGER"@),
            LateColumn::SourceCreatedAt => ("source_created_at"@, "TEXT"@),
            LateColumn::PayloadSha256 => ("payload_sha256"@, "TEXT NOT NULL DEFAULT ''"@),
            LateColumn::DecisionPrincipal => ("principal_login"@, "TEXT"@),
            LateColumn::ScheduleTimerId => ("schedule_timer_id"@, "TEXT"@),
            LateColumn::TimerContextKey => ("timer_context_key"@, "TEXT"@),
            LateColumn::ResumeSessionId => ("resume_session_id"@, "TEXT"@),
            LateColumn::BackendKind => ("backend_kind"@, "TEXT"@),
            LateColumn::BackendRef => ("backend_ref"@, "TEXT"@),
            LateColumn::DispatchPrincipal => ("principal_login"@, "TEXT"@),
            LateColumn::TmuxSession => ("tmux_session"@, "TEXT"@),
            LateColumn::TmuxWindow => ("tmux_window"@, "TEXT"@),
            LateColumn::SupersededByJobId => ("superseded_by_job_id"@, "INTEGER"@),
            LateColumn::WorkerIdentity => ("worker_identity"@, "TEXT"@),
        }
    }

    /// The name of the column, and its type.
    pub fn name_and_type(self) -> (r: (&'static str, &'static str))
        ensures
            (r.0@, r.1@) == self.words(),
    {
        match self {
            LateColumn::EventText => ("event_text", "TEXT"),
            LateColumn::SourceCommentId => ("source_comment_id", "INTEGER"),
            LateColumn::SourceCreatedAt => ("source_created_at", "TEXT"),
            LateColumn::PayloadSha256 => ("payload_sha256", "TEXT NOT NULL DEFAULT ''"),
            LateColumn::DecisionPrincipal => ("principal_login", "TEXT"),
            LateColumn::ScheduleTimerId => ("schedule_timer_id", "TEXT"),
            LateColumn::TimerContextKey => ("timer_context_key", "TEXT"),
            LateColumn::ResumeSessionId => ("resume_session_id", "TEXT"),
            LateColumn::BackendKind => ("backend_kind", "TEXT"),
            LateColumn::BackendRef => ("backend_ref", "TEXT"),
            LateColumn::DispatchPrincipal => ("principal_login", "TEXT"),
            LateColumn::TmuxSession => ("tmux_session", "TEXT"),
            LateColumn::TmuxWindow => ("tmux_window", "TEXT"),
            LateColumn::SupersededByJobId => ("superseded_by_job_id", "INTEGER"),
            LateColumn::WorkerIdentity => ("worker_identity", "TEXT"),
        }
    }
}

/// What a store has: its tables, and its late columns.
pub struct StoreSchema {
    pub tables: Vec<StoreTable>,
    pub columns: Vec<LateColumn>,
}

/// What a store has, in contracts.
#[verifier::ext_equal]
pub struct SchemaSpec {
    pub tables: Set<StoreTable>,
    pub columns: Set<LateColumn>,
}

impl View for StoreSchema {
    type V = SchemaSpec;

    open spec fn view(&self) -> SchemaSpec {
        SchemaSpec { tables: self.tables@.to_set(), columns: self.columns@.to_set() }
    }
}

impl StoreSchema {
    /// Tells whether the store has the table.
    pub fn table_exists(&self, table: StoreTable) -> (r: bool)
        ensures
            r == self@.tables.contains(table),
    {
        let mut i: usize = 0;
        while i < self.tables.len()
            invariant
                i <= self.tables@.len(),
                forall|k: int| 0 <= k < i ==> self.tables@[k] != table,
            decreases self.tables.len() - i,
        {
            if self.tables[i] == table {
                assert(self.tables@.contains(table));
                return true;
            }
            i = i + 1;
        }
        false
    }

    /// Tells whether the store has the column.
    pub fn table_has_column(&self, column: LateColumn) -> (r: bool)
        ensures
            r == self@.columns.contains(column),
    {
        let mut i: usize = 0;
        while i < self.columns.len()
            invariant
                i <= self.columns@.len(),
                forall|k: int| 0 <= k < i ==> self.columns@[k] != column,
            decreases self.columns.len() - i,
        {
            if self.columns[i] == column {
                assert(self.columns@.contains(column));
                return true;
            }
            i = i + 1;
        }
        false
    }
}

/// A table as it is found: its name and the names of its columns.
pub struct FoundTable {
    pub name: String,
    pub columns: Vec<String>,
}

/// One of the tables has the name.
pub open spec fn found_table(list: Seq<FoundTable>, table: StoreTable) -> bool {
    exists|i: int| 0 <= i < list.len() && (#[trigger] list[i]).name@ == table.word()
}

/// One of the tables is the one of the column, and has it.
pub open spec fn found_column(list: Seq<FoundTable>, column: LateColumn) -> bool {
    exists|i: int|
        0 <= i < list.len() && (#[trigger] list[i]).name@ == column.owner().word() && views(
            list[i].columns@,
        ).contains(column.words().0)
}

fn table_is_found(list: &Vec<FoundTable>, table: StoreTable) -> (r: bool)
    ensures
        r == found_table(list@, table),
{
    let mut i: usize = 0;
    while i < list.len()
        invariant
            i <= list@.len(),
            forall|k: int| 0 <= k < i ==> (#[trigger] list@[k]).name@ != table.word(),
        decreases list.len() - i,
    {
        if str_eq(list[i].name.as_str(), table.name()) {
            return true;
        }
        i = i + 1;
    }
    false
}

fn column_is_found(list: &Vec<FoundTable>, column: LateColumn) -> (r: bool)
    ensures
        r == found_column(list@, column),
{
    let mut i: usize = 0;
    while i < list.len()
        invariant
            i <= list@.len(),
            forall|k: int|
                0 <= k < i ==> !((#[trigger] list@[k]).name@ == column.owner().word() && views(
                    list@[k].columns@,
                ).contains(column.words().0)),
        decreases list.len() - i,
    {
        if str_eq(list[i].name.as_str(), column.table().name()) && listed(
            &list[i].columns,
            column.name_and_type().0,
        ) {
            return true;
        }
        i = i + 1;
    }
    false
}

fn all_tables() -> (r: Vec<StoreTable>)
    ensures
        forall|t: StoreTable| #[trigger] r@.contains(t),
{
    let all = vec![
        StoreTable::Events,
        StoreTable::Decisions,
        StoreTable::Heartbeats,
        StoreTable::Reconciles,
        StoreTable::Dispatches,
        StoreTable::DispatchEvents,
        StoreTable::IssueRoleCursors,
        StoreTable::Repos,
        StoreTable::NotificationDeliveries,
        StoreTable::TriggerDispatchDedupes,
        StoreTable::ScheduleClaims,
        StoreTable::TimerContexts,
        StoreTable::DeployJobs,
        StoreTable::DeployRuns,
        StoreTable::DeployReleases,
    ];
    proof {
        assert forall|t: StoreTable| #[trigger] all@.contains(t) by {
            assert(all@[0] == StoreTable::Events);
            assert(all@[1] == StoreTable::Decisions);
            assert(all@[2] == StoreTable::Heartbeats);
            assert(all@[3] == StoreTable::Reconciles);
            assert(all@[4] == StoreTable::Dispatches);
            assert(all@[5] == StoreTable::DispatchEvents);
            assert(all@[6] == StoreTable::IssueRoleCursors);
            assert(all@[7] == StoreTable::Repos);
            assert(all@[8] == StoreTable::NotificationDeliveries);
            assert(all@[9] == StoreTable::TriggerDispatchDedupes);
            assert(all@[10] == StoreTable::ScheduleClaims);
            assert(all@[11] == StoreTable::TimerContexts);
            assert(all@[12] == StoreTable::DeployJobs);
            assert(all@[13] == StoreTable::DeployRuns);
            assert(all@[14] == StoreTable::DeployReleases);
        }
    }
    all
}

fn all_columns() -> (r: Vec<LateColumn>)
    ensures
        forall|c: LateColumn| #[trigger] r@.contains(c),
{
    let all = vec![
        LateColumn::EventText,
        LateColumn::SourceCommentId,
        LateColumn::SourceCreatedAt,
        LateColumn::PayloadSha256,
        LateColumn::DecisionPrincipal,
        LateColumn::ScheduleTimerId,
        LateColumn::TimerContextKey,
        LateColumn::ResumeSessionId,
        LateColumn::BackendKind,
        LateColumn::BackendRef,
        LateColumn::DispatchPrincipal,
        LateColumn::TmuxSession,
        LateColumn::TmuxWindow,
        LateColumn::SupersededByJobId,
        LateColumn::WorkerIdentity,
    ];
    proof {
        assert forall|c: LateColumn| #[trigger] all@.contains(c) by {
            assert(all@[0] == LateColumn::EventText);
            assert(all@[1] == LateColumn::SourceCommentId);
            assert(all@[2] == LateColumn::SourceCreatedAt);
            assert(all@[3] == LateColumn::PayloadSha256);
            assert(all@[4] == LateColumn::DecisionPrincipal);
            assert(all@[5] == LateColumn::ScheduleTimerId);
            assert(all@[6] == LateColumn::TimerContextKey);
            assert(all@[7] == LateColumn::ResumeSessionId);
            assert(all@[8] == LateColumn::BackendKind);
            assert(all@[9] == LateColumn::BackendRef);
            assert(all@[10] == LateColumn::DispatchPrincipal);
            assert(all@[11] == LateColumn::TmuxSession);
            assert(all@[12] == LateColumn::TmuxWindow);
            assert(all@[13] == LateColumn::SupersededByJobId);
            assert(all@[14] == LateColumn::WorkerIdentity);
        }
    }
    all
}

/// What a store has, from its tables as they are found. Tables and columns that are none of these are left
/// aside.
pub fn read_schema(list: &Vec<FoundTable>) -> (r: StoreSchema)
    ensures
        forall|t: StoreTable| #[trigger] r@.tables.contains(t) <==> found_table(list@, t),
        forall|c: LateColumn| #[trigger] r@.columns.contains(c) <==> found_column(list@, c),
{
    let names = all_tables();
    let mut tables: Vec<StoreTable> = Vec::new();
    let mut i: usize = 0;
    while i < names.len()
        invariant
            i <= names@.len(),
            forall|t: StoreTable| #[trigger]
                tables@.contains(t) <==> names@.take(i as int).contains(t) && found_table(list@, t),
        decreases names.len() - i,
    {
        let ghost before = tables@;
        let name = names[i];
        let here = table_is_found(list, name);
        if here {
            tables.push(name);
        }
        proof {
            lemma_one_more(names@, i as int);
            assert forall|t: StoreTable| #[trigger]
                tables@.contains(t) <==> names@.take(i + 1).contains(t) && found_table(
                    list@,
                    t,
                ) by {
                if here {
                    lemma_pushed(before, name, t);
                }
            }
        }
        i = i + 1;
    }
    proof {
        assert(names@.take(i as int) =~= names@);
    }
    let kinds = all_columns();
    let mut columns: Vec<LateColumn> = Vec::new();
    let mut j: usize = 0;
    while j < kinds.len()
        invariant
            j <= kinds@.len(),
            forall|c: LateColumn| #[trigger]
                columns@.contains(c) <==> kinds@.take(j as int).contains(c) && found_column(
                    list@,
                    c,
                ),
        decreases kinds.len() - j,
    {
        let ghost before = columns@;
        let kind = kinds[j];
        let here = column_is_found(list, kind);
        if here {
            columns.push(kind);
        }
        proof {
            lemma_one_more(kinds@, j as int);
            assert forall|c: LateColumn| #[trigger]
                columns@.contains(c) <==> kinds@.take(j + 1).contains(c) && found_column(
                    list@,
                    c,
                ) by {
                if here {
                    lemma_pushed(before, kind, c);
                }
            }
        }
        j = j + 1;
    }
    proof {
        assert(kinds@.take(j as int) =~= kinds@);
    }
    StoreSchema { tables, columns }
}

proof fn lemma_pushed<A>(s: Seq<A>, x: A, y: A)
    ensures
        s.push(x).contains(y) <==> s.contains(y) || y == x,
{
    if s.contains(y) {
        let k = choose|k: int| 0 <= k < s.len() && s[k] == y;
        assert(s.push(x)[k] == y);
    }
    assert(s.push(x)[s.len() as int] == x);
}

proof fn lemma_one_more<A>(s: Seq<A>, i: int)
    requires
        0 <= i < s.len(),
    ensures
        forall|y: A| #[trigger] s.take(i + 1).contains(y) <==> s.take(i).contains(y) || y == s[i],
{
    assert(s.take(i + 1) =~= s.take(i).push(s[i]));
    assert forall|y: A| #[trigger] s.take(i + 1).contains(y) <==> s.take(i).contains(y) || y == s[i] by {
        lemma_pushed(s.take(i), s[i], y);
    }
}

/// The columns of the table of dispatches.
pub const DISPATCH_COLUMNS: &'static str = " (\
    id INTEGER PRIMARY KEY AUTOINCREMENT, decision_id INTEGER NOT NULL, \
    repo_full_name TEXT NOT NULL, issue_number INTEGER NOT NULL, actor_login TEXT, \
    directive TEXT NOT NULL, target_role TEXT NOT NULL, status TEXT NOT NULL, backend_kind TEXT, \
    backend_ref TEXT, reason_code TEXT, error_text TEXT, run_dir TEXT, lock_path TEXT, \
    codex_session_id TEXT, exit_code INTEGER, started_at TEXT NOT NULL, ended_at TEXT, \
    FOREIGN KEY(decision_id) REFERENCES decisions(id)); ";

/// The indexes of the table of dispatches.
pub const DISPATCH_INDEXES: &'static str = "CREATE INDEX IF NOT EXISTS idx_dispatches_repo_status \
    ON dispatches (repo_full_name, status); \
    CREATE INDEX IF NOT EXISTS idx_dispatches_repo_issue \
    ON dispatches (repo_full_name, issue_number, id DESC);";

/// The columns that the rows of dispatches keep when the table is made anew, up to those of the backend.
pub const KEPT_BEFORE: &'static str = "id, decision_id, repo_full_name, issue_number, actor_login, \
    directive, target_role, status";

/// The columns that the rows of dispatches keep when the table is made anew, behind those of the backend.
pub const KEPT_BEHIND: &'static str = "reason_code, error_text, run_dir, lock_path, codex_session_id, \
    exit_code, started_at, ended_at";

/// The table of events.
pub const EVENTS_SQL: &'static str = "CREATE TABLE IF NOT EXISTS events (\
    id INTEGER PRIMARY KEY AUTOINCREMENT, delivery_id TEXT NOT NULL, event_type TEXT NOT NULL, \
    repo_full_name TEXT NOT NULL, issue_number INTEGER, action TEXT, actor_login TEXT, \
    event_text TEXT, source_comment_id INTEGER, source_created_at TEXT, raw_json TEXT NOT NULL, \
    received_at TEXT NOT NULL, UNIQUE(delivery_id, event_type));";

/// The table of decisions.
pub const DECISIONS_SQL: &'static str = "CREATE TABLE IF NOT EXISTS decisions (\
    id INTEGER PRIMARY KEY AUTOINCREMENT, event_id INTEGER NOT NULL, \
    repo_full_name TEXT NOT NULL, issue_number INTEGER, actor_login TEXT, directive TEXT, \
    target_role TEXT, decision TEXT NOT NULL, reason_code TEXT NOT NULL, \
    would_dispatch INTEGER NOT NULL, comment_posted INTEGER NOT NULL DEFAULT 0, \
    comment_error TEXT, created_at TEXT NOT NULL, FOREIGN KEY(event_id) REFERENCES events(id));";

/// The table of heartbeats.
pub const HEARTBEATS_SQL: &'static str = "CREATE TABLE IF NOT EXISTS heartbeats (\
    id INTEGER PRIMARY KEY AUTOINCREMENT, recorded_at TEXT NOT NULL, \
    queue_depth INTEGER NOT NULL, events_total INTEGER NOT NULL, \
    decisions_total INTEGER NOT NULL, last_delivery_id TEXT);";

/// The table of reconciles.
pub const RECONCILES_SQL: &'static str = "CREATE TABLE IF NOT EXISTS reconciles (\
    id INTEGER PRIMARY KEY AUTOINCREMENT, recorded_at TEXT NOT NULL, \
    repo_full_name TEXT NOT NULL, scanned_open INTEGER NOT NULL, status TEXT NOT NULL, \
    error_text TEXT);";

/// The table of changes of dispatches.
pub const DISPATCH_EVENTS_SQL: &'static str = "CREATE TABLE IF NOT EXISTS dispatch_events (\
    id INTEGER PRIMARY KEY AUTOINCREMENT, dispatch_id INTEGER NOT NULL, event_kind TEXT NOT NULL, \
    from_state TEXT, to_state TEXT NOT NULL, reason_code TEXT, error_text TEXT, \
    created_at TEXT NOT NULL, FOREIGN KEY(dispatch_id) REFERENCES dispatches(id)); \
    CREATE INDEX IF NOT EXISTS idx_dispatch_events_dispatch \
    ON dispatch_events (dispatch_id, id);";

/// The table of what roles have seen.
pub const ISSUE_ROLE_CURSORS_SQL: &'static str = "CREATE TABLE IF NOT EXISTS issue_role_cursors (\
    repo_full_name TEXT NOT NULL, issue_number INTEGER NOT NULL, role_name TEXT NOT NULL, \
    last_event_id INTEGER NOT NULL, updated_at TEXT NOT NULL, \
    PRIMARY KEY (repo_full_name, issue_number, role_name));";

/// The table of repositories.
pub const REPOS_SQL: &'static str = "CREATE TABLE IF NOT EXISTS repos (\
    repo_full_name TEXT PRIMARY KEY, first_seen_at TEXT NOT NULL, last_seen_at TEXT NOT NULL, \
    labels_ensured_at TEXT, local_path TEXT, last_error TEXT);";

/// The table of what was told.
pub const NOTIFICATION_DELIVERIES_SQL: &'static str = "CREATE TABLE IF NOT EXISTS notification_deliveries (\
    dedupe_key TEXT PRIMARY KEY, category TEXT NOT NULL, sent_at TEXT NOT NULL); \
    CREATE INDEX IF NOT EXISTS idx_notification_deliveries_category_sent \
    ON notification_deliveries (category, sent_at DESC);";

/// The table of what triggers have dispatched.
pub const TRIGGER_DISPATCH_DEDUPES_SQL: &'static str = "CREATE TABLE IF NOT EXISTS trigger_dispatch_dedupes (\
    id INTEGER PRIMARY KEY AUTOINCREMENT, dedupe_key TEXT NOT NULL UNIQUE, \
    trigger_id TEXT NOT NULL, event_id INTEGER NOT NULL, repo_full_name TEXT NOT NULL, \
    issue_number INTEGER, created_at TEXT NOT NULL, \
    FOREIGN KEY(event_id) REFERENCES events(id)); \
    CREATE INDEX IF NOT EXISTS idx_trigger_dispatch_dedupe_issue \
    ON trigger_dispatch_dedupes (repo_full_name, issue_number, id DESC);";

/// The table of claims of timers.
pub const SCHEDULE_CLAIMS_SQL: &'static str = "CREATE TABLE IF NOT EXISTS schedule_claims (\
    timer_id TEXT NOT NULL, slot_index INTEGER NOT NULL, scheduled_for TEXT NOT NULL, \
    issue_number INTEGER, event_id INTEGER, decision_id INTEGER, created_at TEXT NOT NULL, \
    PRIMARY KEY (timer_id, slot_index)); \
    CREATE INDEX IF NOT EXISTS idx_schedule_claims_timer_scheduled \
    ON schedule_claims (timer_id, scheduled_for DESC);";

/// The table of contexts of timers.
pub const TIMER_CONTEXTS_SQL: &'static str = "CREATE TABLE IF NOT EXISTS timer_contexts (\
    context_key TEXT PRIMARY KEY, role_name TEXT NOT NULL, repo_full_name TEXT NOT NULL, \
    principal_login TEXT NOT NULL, cwd TEXT NOT NULL, codex_session_id TEXT, \
    run_count INTEGER NOT NULL DEFAULT 0, prompt_bytes_total INTEGER NOT NULL DEFAULT 0, \
    last_context_pct INTEGER, last_status TEXT, updated_at TEXT NOT NULL); \
    CREATE INDEX IF NOT EXISTS idx_timer_contexts_role_repo \
    ON timer_contexts (role_name, repo_full_name, updated_at DESC);";

/// The table of deploys.
pub const DEPLOY_JOBS_SQL: &'static str = "CREATE TABLE IF NOT EXISTS deploy_jobs (\
    id INTEGER PRIMARY KEY AUTOINCREMENT, repo_full_name TEXT NOT NULL, \
    target_branch TEXT NOT NULL, target_sha TEXT NOT NULL, source_event_id INTEGER, \
    source_delivery_id TEXT, source_actor_login TEXT, status TEXT NOT NULL, reason_code TEXT, \
    error_text TEXT, checkout_path TEXT, log_path TEXT, incident_issue_number INTEGER, \
    rollback_status TEXT, attempt_count INTEGER NOT NULL DEFAULT 0, queued_at TEXT NOT NULL, \
    started_at TEXT, ended_at TEXT, FOREIGN KEY(source_event_id) REFERENCES events(id), \
    UNIQUE(repo_full_name, target_branch, target_sha)); \
    CREATE INDEX IF NOT EXISTS idx_deploy_jobs_status_id ON deploy_jobs (status, id); \
    CREATE INDEX IF NOT EXISTS idx_deploy_jobs_repo_branch_id \
    ON deploy_jobs (repo_full_name, target_branch, id DESC);";

/// The table of the phases of deploys.
pub const DEPLOY_RUNS_SQL: &'static str = "CREATE TABLE IF NOT EXISTS deploy_runs (\
    id INTEGER PRIMARY KEY AUTOINCREMENT, deploy_job_id INTEGER NOT NULL, \
    repo_full_name TEXT NOT NULL, target_branch TEXT NOT NULL, target_sha TEXT NOT NULL, \
    phase TEXT NOT NULL, status TEXT NOT NULL, reason_code TEXT, detail_json TEXT, \
    started_at TEXT NOT NULL, ended_at TEXT, \
    FOREIGN KEY(deploy_job_id) REFERENCES deploy_jobs(id)); \
    CREATE INDEX IF NOT EXISTS idx_deploy_runs_job_id ON deploy_runs (deploy_job_id, id DESC); \
    CREATE INDEX IF NOT EXISTS idx_deploy_runs_status_id ON deploy_runs (status, id DESC);";

/// The table of what is in service.
pub const DEPLOY_RELEASES_SQL: &'static str = "CREATE TABLE IF NOT EXISTS deploy_releases (\
    repo_full_name TEXT NOT NULL, target_branch TEXT NOT NULL, active_sha TEXT, \
    previous_sha TEXT, updated_at TEXT NOT NULL, PRIMARY KEY(repo_full_name, target_branch));";

/// Makes the table, where it is not there, with its indexes.
pub open spec fn create_sql(table: StoreTable) -> Seq<char> {
    match table {
        StoreTable::Dispatches => "CREATE TABLE IF NOT EXISTS dispatches"@ + DISPATCH_COLUMNS@
            + DISPATCH_INDEXES@,
        StoreTable::Events => EVENTS_SQL@,
        StoreTable::Decisions => DECISIONS_SQL@,
        StoreTable::Heartbeats => HEARTBEATS_SQL@,
        StoreTable::Reconciles => RECONCILES_SQL@,
        StoreTable::DispatchEvents => DISPATCH_EVENTS_SQL@,
        StoreTable::IssueRoleCursors => ISSUE_ROLE_CURSORS_SQL@,
        StoreTable::Repos => REPOS_SQL@,
        StoreTable::NotificationDeliveries => NOTIFICATION_DELIVERIES_SQL@,
        StoreTable::TriggerDispatchDedupes => TRIGGER_DISPATCH_DEDUPES_SQL@,
        StoreTable::ScheduleClaims => SCHEDULE_CLAIMS_SQL@,
        StoreTable::TimerContexts => TIMER_CONTEXTS_SQL@,
        StoreTable::DeployJobs => DEPLOY_JOBS_SQL@,
        StoreTable::DeployRuns => DEPLOY_RUNS_SQL@,
        StoreTable::DeployReleases => DEPLOY_RELEASES_SQL@,
    }
}

fn create_text(table: StoreTable) -> (r: String)
    ensures
        r@ == create_sql(table),
{
    match table {
        StoreTable::Dispatches => cat3(
            "CREATE TABLE IF NOT EXISTS dispatches",
            DISPATCH_COLUMNS,
            DISPATCH_INDEXES,
        ),
        StoreTable::Events => EVENTS_SQL.to_owned(),
        StoreTable::Decisions => DECISIONS_SQL.to_owned(),
        StoreTable::Heartbeats => HEARTBEATS_SQL.to_owned(),
        StoreTable::Reconciles => RECONCILES_SQL.to_owned(),
        StoreTable::DispatchEvents => DISPATCH_EVENTS_SQL.to_owned(),
        StoreTable::IssueRoleCursors => ISSUE_ROLE_CURSORS_SQL.to_owned(),
        StoreTable::Repos => REPOS_SQL.to_owned(),
        StoreTable::NotificationDeliveries => NOTIFICATION_DELIVERIES_SQL.to_owned(),
        StoreTable::TriggerDispatchDedupes => TRIGGER_DISPATCH_DEDUPES_SQL.to_owned(),
        StoreTable::ScheduleClaims => SCHEDULE_CLAIMS_SQL.to_owned(),
        StoreTable::TimerContexts => TIMER_CONTEXTS_SQL.to_owned(),
        StoreTable::DeployJobs => DEPLOY_JOBS_SQL.to_owned(),
        StoreTable::DeployRuns => DEPLOY_RUNS_SQL.to_owned(),
        StoreTable::DeployReleases => DEPLOY_RELEASES_SQL.to_owned(),
    }
}


/// A step that changes a store.
#[derive(Clone, Copy, PartialEq, Eq, Structural, Debug)]
pub enum MigrationStep {
    /// Make the table, where it is not there, with its indexes.
    Create(StoreTable),
    /// Add the column.
    AddColumn(LateColumn),
    /// Make the table of dispatches anew without the columns of terminals; what those held goes into the
    /// columns of the backend, as far as these are empty.
    RebuildDispatches { session: bool, window: bool },
    /// Make the index by which old rows of the table are found.
    Index(StoreTable),
    /// Call the directive by its later name.
    ReplyForPoke(StoreTable),
    /// Let each actor be the principal, where none is given.
    FillPrincipal(StoreTable),
}

/// The step that adds the column, where the store lacks it.
pub open spec fn lacking(s: SchemaSpec, column: LateColumn) -> Seq<MigrationStep> {
    if s.columns.contains(column) {
        Seq::empty()
    } else {
        seq![MigrationStep::AddColumn(column)]
    }
}

/// The steps, where the store has the table.
pub open spec fn with_table(s: SchemaSpec, table: StoreTable, steps: Seq<MigrationStep>) -> Seq<
    MigrationStep,
> {
    if s.tables.contains(table) {
        steps
    } else {
        Seq::empty()
    }
}

/// The steps towards the columns and tables of timers.
pub open spec fn timer_steps(s: SchemaSpec) -> Seq<MigrationStep> {
    with_table(
        s,
        StoreTable::Decisions,
        lacking(s, LateColumn::ScheduleTimerId) + lacking(s, LateColumn::TimerContextKey) + lacking(
            s,
            LateColumn::ResumeSessionId,
        ),
    ).push(MigrationStep::Create(StoreTable::ScheduleClaims)).push(
        MigrationStep::Create(StoreTable::TimerContexts),
    )
}

/// The step that makes the index of the table, where the store has the table.
pub open spec fn indexing(s: SchemaSpec, table: StoreTable) -> Seq<MigrationStep> {
    with_table(s, table, seq![MigrationStep::Index(table)])
}

/// The steps of a version of the schema, for a store that has so much.
pub open spec fn steps_of(version: int, s: SchemaSpec) -> Seq<MigrationStep> {
    if version == 1 {
        seq![
            MigrationStep::Create(StoreTable::Events),
            MigrationStep::Create(StoreTable::Decisions),
            MigrationStep::Create(StoreTable::Heartbeats),
            MigrationStep::Create(StoreTable::Reconciles),
            MigrationStep::Create(StoreTable::Dispatches),
            MigrationStep::Create(StoreTable::DispatchEvents),
            MigrationStep::Create(StoreTable::IssueRoleCursors),
            MigrationStep::Create(StoreTable::Repos),
        ]
    } else if version == 2 {
        lacking(s, LateColumn::EventText) + lacking(s, LateColumn::SourceCommentId) + lacking(
            s,
            LateColumn::SourceCreatedAt,
        ) + lacking(s, LateColumn::BackendKind) + lacking(s, LateColumn::BackendRef)
    } else if version == 3 {
        let session = s.columns.contains(LateColumn::TmuxSession);
        let window = s.columns.contains(LateColumn::TmuxWindow);
        if session || window {
            seq![MigrationStep::RebuildDispatches { session, window }]
        } else {
            Seq::empty()
        }
    } else if version == 4 || version == 5 {
        seq![MigrationStep::Create(StoreTable::NotificationDeliveries)]
    } else if version == 6 {
        seq![MigrationStep::Create(StoreTable::TriggerDispatchDedupes)]
    } else if version == 7 {
        with_table(
            s,
            StoreTable::Decisions,
            seq![MigrationStep::ReplyForPoke(StoreTable::Decisions)],
        ) + with_table(
            s,
            StoreTable::Dispatches,
            seq![MigrationStep::ReplyForPoke(StoreTable::Dispatches)],
        )
    } else if version == 8 {
        with_table(
            s,
            StoreTable::Decisions,
            lacking(s, LateColumn::DecisionPrincipal).push(
                MigrationStep::FillPrincipal(StoreTable::Decisions),
            ),
        ) + with_table(
            s,
            StoreTable::Dispatches,
            lacking(s, LateColumn::DispatchPrincipal).push(
                MigrationStep::FillPrincipal(StoreTable::Dispatches),
            ),
        )
    } else if version == 9 || version == 11 {
        timer_steps(s)
    } else if version == 10 {
        with_table(
            s,
            StoreTable::Events,
            lacking(s, LateColumn::PayloadSha256).push(MigrationStep::Index(StoreTable::Events)),
        ) + indexing(s, StoreTable::Decisions) + indexing(s, StoreTable::Dispatches) + indexing(
            s,
            StoreTable::Heartbeats,
        ) + indexing(s, StoreTable::Reconciles) + indexing(s, StoreTable::TriggerDispatchDedupes)
    } else if version == 12 {
        seq![MigrationStep::Create(StoreTable::DeployJobs)]
    } else {
        with_table(
            s,
            StoreTable::DeployJobs,
            lacking(s, LateColumn::SupersededByJobId) + lacking(s, LateColumn::WorkerIdentity),
        ).push(MigrationStep::Create(StoreTable::DeployRuns)).push(
            MigrationStep::Create(StoreTable::DeployReleases),
        )
    }
}

/// Adds the step for the column, where the store lacks it.
fn add_lacking(out: &mut Vec<MigrationStep>, schema: &StoreSchema, column: LateColumn)
    ensures
        final(out)@ == old(out)@ + lacking(schema@, column),
{
    if !schema.table_has_column(column) {
        out.push(MigrationStep::AddColumn(column));
    }
    proof {
        assert(out@ =~= old(out)@ + lacking(schema@, column));
    }
}

/// Adds the step for the index, where the store has the table.
fn add_index(out: &mut Vec<MigrationStep>, schema: &StoreSchema, table: StoreTable)
    ensures
        final(out)@ == old(out)@ + indexing(schema@, table),
{
    if schema.table_exists(table) {
        out.push(MigrationStep::Index(table));
    }
    proof {
        assert(out@ =~= old(out)@ + indexing(schema@, table));
    }
}

/// The steps towards the columns and tables of timers.
fn ensure_timer_schedule_context_schema(schema: &StoreSchema) -> (r: Vec<MigrationStep>)
    ensures
        r@ == timer_steps(schema@),
{
    let mut out: Vec<MigrationStep> = Vec::new();
    if schema.table_exists(StoreTable::Decisions) {
        add_lacking(&mut out, schema, LateColumn::ScheduleTimerId);
        add_lacking(&mut out, schema, LateColumn::TimerContextKey);
        add_lacking(&mut out, schema, LateColumn::ResumeSessionId);
    }
    out.push(MigrationStep::Create(StoreTable::ScheduleClaims));
    out.push(MigrationStep::Create(StoreTable::TimerContexts));
    proof {
        assert(out@ =~= timer_steps(schema@));
    }
    out
}

/// The steps of the version that brings the indexes by which old rows are found.
fn migration_0010_add_prune_support_indexes(schema: &StoreSchema) -> (r: Vec<MigrationStep>)
    ensures
        r@ == steps_of(10, schema@),
{
    let mut out: Vec<MigrationStep> = Vec::new();
    if schema.table_exists(StoreTable::Events) {
        add_lacking(&mut out, schema, LateColumn::PayloadSha256);
        out.push(MigrationStep::Index(StoreTable::Events));
    }
    proof {
        assert(out@ =~= with_table(
            schema@,
            StoreTable::Events,
            lacking(schema@, LateColumn::PayloadSha256).push(
                MigrationStep::Index(StoreTable::Events),
            ),
        ));
    }
    add_index(&mut out, schema, StoreTable::Decisions);
    add_index(&mut out, schema, StoreTable::Dispatches);
    add_index(&mut out, schema, StoreTable::Heartbeats);
    add_index(&mut out, schema, StoreTable::Reconciles);
    add_index(&mut out, schema, StoreTable::TriggerDispatchDedupes);
    out
}

/// The steps of the version that lets decisions and dispatches have principals.
fn migration_0008_add_dispatch_principal_logins(schema: &StoreSchema) -> (r: Vec<MigrationStep>)
    ensures
        r@ == steps_of(8, schema@),
{
    let mut out: Vec<MigrationStep> = Vec::new();
    if schema.table_exists(StoreTable::Decisions) {
        add_lacking(&mut out, schema, LateColumn::DecisionPrincipal);
        out.push(MigrationStep::FillPrincipal(StoreTable::Decisions));
    }
    let ghost first = out@;
    if schema.table_exists(StoreTable::Dispatches) {
        add_lacking(&mut out, schema, LateColumn::DispatchPrincipal);
        out.push(MigrationStep::FillPrincipal(StoreTable::Dispatches));
    }
    proof {
        assert(first =~= with_table(
            schema@,
            StoreTable::Decisions,
            lacking(schema@, LateColumn::DecisionPrincipal).push(
                MigrationStep::FillPrincipal(StoreTable::Decisions),
            ),
        ));
        assert(out@ =~= first + with_table(
            schema@,
            StoreTable::Dispatches,
            lacking(schema@, LateColumn::DispatchPrincipal).push(
                MigrationStep::FillPrincipal(StoreTable::Dispatches),
            ),
        ));
    }
    out
}

/// The steps that bring a version of the schema into a store, given what the store has.
pub fn migration_steps(version: i64, schema: &StoreSchema) -> (r: Vec<MigrationStep>)
    requires
        1 <= version <= LATEST_SCHEMA_VERSION,
    ensures
        r@ == steps_of(version as int, schema@),
{
    if version == 1 {
        return vec![
            MigrationStep::Create(StoreTable::Events),
            MigrationStep::Create(StoreTable::Decisions),
            MigrationStep::Create(StoreTable::Heartbeats),
            MigrationStep::Create(StoreTable::Reconciles),
            MigrationStep::Create(StoreTable::Dispatches),
            MigrationStep::Create(StoreTable::DispatchEvents),
            MigrationStep::Create(StoreTable::IssueRoleCursors),
            MigrationStep::Create(StoreTable::Repos),
        ];
    }
    if version == 8 {
        return migration_0008_add_dispatch_principal_logins(schema);
    }
    if version == 9 || version == 11 {
        return ensure_timer_schedule_context_schema(schema);
    }
    if version == 10 {
        return migration_0010_add_prune_support_indexes(schema);
    }
    let mut out: Vec<MigrationStep> = Vec::new();
    if version == 2 {
        add_lacking(&mut out, schema, LateColumn::EventText);
        add_lacking(&mut out, schema, LateColumn::SourceCommentId);
        add_lacking(&mut out, schema, LateColumn::SourceCreatedAt);
        add_lacking(&mut out, schema, LateColumn::BackendKind);
        add_lacking(&mut out, schema, LateColumn::BackendRef);
    } else if version == 3 {
        let session = schema.table_has_column(LateColumn::TmuxSession);
        let window = schema.table_has_column(LateColumn::TmuxWindow);
        if session || window {
            out.push(MigrationStep::RebuildDispatches { session, window });
        }
    } else if version == 4 || version == 5 {
        out.push(MigrationStep::Create(StoreTable::NotificationDeliveries));
    } else if version == 6 {
        out.push(MigrationStep::Create(StoreTable::TriggerDispatchDedupes));
    } else if version == 7 {
        if schema.table_exists(StoreTable::Decisions) {
            out.push(MigrationStep::ReplyForPoke(StoreTable::Decisions));
        }
        if schema.table_exists(StoreTable::Dispatches) {
            out.push(MigrationStep::ReplyForPoke(StoreTable::Dispatches));
        }
    } else if version == 12 {
        out.push(MigrationStep::Create(StoreTable::DeployJobs));
    } else {
        if schema.table_exists(StoreTable::DeployJobs) {
            add_lacking(&mut out, schema, LateColumn::SupersededByJobId);
            add_lacking(&mut out, schema, LateColumn::WorkerIdentity);
        }
        out.push(MigrationStep::Create(StoreTable::DeployRuns));
        out.push(MigrationStep::Create(StoreTable::DeployReleases));
    }
    proof {
        assert(out@ =~= steps_of(version as int, schema@));
    }
    out
}


/// The name of the index by which old rows of the table are found, and its column.
pub open spec fn prune_index(table: StoreTable) -> Option<(Seq<char>, Seq<char>)> {
    match table {
        StoreTable::Events => Some(("idx_events_received_at"@, "received_at"@)),
        StoreTable::Decisions => Some(("idx_decisions_event_id"@, "event_id"@)),
        StoreTable::Dispatches => Some(("idx_dispatches_decision_id"@, "decision_id"@)),
        StoreTable::Heartbeats => Some(("idx_heartbeats_recorded_at"@, "recorded_at"@)),
        StoreTable::Reconciles => Some(("idx_reconciles_recorded_at"@, "recorded_at"@)),
        StoreTable::TriggerDispatchDedupes => Some(("idx_trigger_dispatch_dedupes_event_id"@, "event_id"@)),
        _ => None,
    }
}

/// Makes an index; nothing for a table that has none.
pub open spec fn index_sql(table: StoreTable) -> Seq<char> {
    match prune_index(table) {
        Some((name, column)) => "CREATE INDEX IF NOT EXISTS "@ + name + " ON "@ + table.word()
            + " ("@ + column + ");"@,
        None => Seq::empty(),
    }
}

fn index_text(table: StoreTable) -> (r: String)
    ensures
        r@ == index_sql(table),
{
    let (name, column) = match table {
        StoreTable::Events => ("idx_events_received_at", "received_at"),
        StoreTable::Decisions => ("idx_decisions_event_id", "event_id"),
        StoreTable::Dispatches => ("idx_dispatches_decision_id", "decision_id"),
        StoreTable::Heartbeats => ("idx_heartbeats_recorded_at", "recorded_at"),
        StoreTable::Reconciles => ("idx_reconciles_recorded_at", "recorded_at"),
        StoreTable::TriggerDispatchDedupes => ("idx_trigger_dispatch_dedupes_event_id", "event_id"),
        _ => {
            let none = String::new();
            assert(none@ =~= index_sql(table));
            return none;
        },
    };
    let head = cat5("CREATE INDEX IF NOT EXISTS ", name, " ON ", table.name(), " (");
    cat3(head.as_str(), column, ");")
}

/// A column of terminals in a query, or nothing in its place.
pub open spec fn expression(there: bool, column: Seq<char>) -> Seq<char> {
    if there {
        column
    } else {
        "NULL"@
    }
}

/// Makes the table of dispatches anew. The backend of a dispatch stays, where it has one; else the columns
/// of terminals tell it.
pub open spec fn rebuild_sql(session: bool, window: bool) -> Seq<char> {
    let s = expression(session, "tmux_session"@);
    let w = expression(window, "tmux_window"@);
    "CREATE TABLE dispatches_new"@ + DISPATCH_COLUMNS@ + "INSERT INTO dispatches_new ("@
        + KEPT_BEFORE@ + ", backend_kind, backend_ref, "@ + KEPT_BEHIND@ + ") SELECT "@
        + KEPT_BEFORE@
        + ", CASE WHEN backend_kind IS NOT NULL AND trim(backend_kind) <> '' THEN backend_kind WHEN "@
        + s + " IS NOT NULL OR "@ + w
        + " IS NOT NULL THEN 'tmux' ELSE NULL END, CASE WHEN backend_ref IS NOT NULL AND trim(backend_ref) <> '' THEN backend_ref WHEN "@
        + s + " IS NOT NULL AND "@ + w + " IS NOT NULL THEN "@ + s + " || ':' || "@ + w
        + " ELSE NULL END, "@ + KEPT_BEHIND@
        + " FROM dispatches; DROP TABLE dispatches; ALTER TABLE dispatches_new RENAME TO dispatches; "@
        + DISPATCH_INDEXES@
}

fn rebuild_text(session: bool, window: bool) -> (r: String)
    ensures
        r@ == rebuild_sql(session, window),
{
    let s = if session {
        "tmux_session"
    } else {
        "NULL"
    };
    let w = if window {
        "tmux_window"
    } else {
        "NULL"
    };
    let mut out = cat5(
        "CREATE TABLE dispatches_new",
        DISPATCH_COLUMNS,
        "INSERT INTO dispatches_new (",
        KEPT_BEFORE,
        ", backend_kind, backend_ref, ",
    );
    out.append(KEPT_BEHIND);
    out.append(") SELECT ");
    out.append(KEPT_BEFORE);
    out.append(
        ", CASE WHEN backend_kind IS NOT NULL AND trim(backend_kind) <> '' THEN backend_kind WHEN ",
    );
    out.append(s);
    out.append(" IS NOT NULL OR ");
    out.append(w);
    out.append(
        " IS NOT NULL THEN 'tmux' ELSE NULL END, CASE WHEN backend_ref IS NOT NULL AND trim(backend_ref) <> '' THEN backend_ref WHEN ",
    );
    out.append(s);
    out.append(" IS NOT NULL AND ");
    out.append(w);
    out.append(" IS NOT NULL THEN ");
    out.append(s);
    out.append(" || ':' || ");
    out.append(w);
    out.append(" ELSE NULL END, ");
    out.append(KEPT_BEHIND);
    out.append(
        " FROM dispatches; DROP TABLE dispatches; ALTER TABLE dispatches_new RENAME TO dispatches; ",
    );
    out.append(DISPATCH_INDEXES);
    out
}

/// A step in the language of the database.
pub open spec fn sql_of(step: MigrationStep) -> Seq<char> {
    match step {
        MigrationStep::Create(t) => create_sql(t),
        MigrationStep::AddColumn(c) => "ALTER TABLE "@ + c.owner().word() + " ADD COLUMN "@
            + c.words().0 + " "@ + c.words().1,
        MigrationStep::RebuildDispatches { session, window } => rebuild_sql(session, window),
        MigrationStep::Index(t) => index_sql(t),
        MigrationStep::ReplyForPoke(t) => "UPDATE "@ + t.word()
            + " SET directive = 'reply' WHERE directive = 'poke'"@,
        MigrationStep::FillPrincipal(t) => "UPDATE "@ + t.word()
            + " SET principal_login = actor_login WHERE principal_login IS NULL AND actor_login IS NOT NULL"@,
    }
}

/// A step in the language of the database.
pub fn step_sql(step: MigrationStep) -> (r: String)
    ensures
        r@ == sql_of(step),
{
    match step {
        MigrationStep::Create(t) => create_text(t),
        MigrationStep::AddColumn(c) => {
            let (name, kind) = c.name_and_type();
            cat6("ALTER TABLE ", c.table().name(), " ADD COLUMN ", name, " ", kind)
        },
        MigrationStep::RebuildDispatches { session, window } => rebuild_text(session, window),
        MigrationStep::Index(t) => index_text(t),
        MigrationStep::ReplyForPoke(t) => cat3(
            "UPDATE ",
            t.name(),
            " SET directive = 'reply' WHERE directive = 'poke'",
        ),
        MigrationStep::FillPrincipal(t) => cat3(
            "UPDATE ",
            t.name(),
            " SET principal_login = actor_login WHERE principal_login IS NULL AND actor_login IS NOT NULL",
        ),
    }
}

/// The late columns that a table has from the beginning, where it is made today.
pub open spec fn born_with(table: StoreTable) -> Set<LateColumn> {
    match table {
        StoreTable::Events => set![
            LateColumn::EventText,
            LateColumn::SourceCommentId,
            LateColumn::SourceCreatedAt,
        ],
        StoreTable::Dispatches => set![LateColumn::BackendKind, LateColumn::BackendRef],
        _ => Set::empty(),
    }
}

/// What a store has after a step.
pub open spec fn after_step(s: SchemaSpec, step: MigrationStep) -> SchemaSpec {
    match step {
        MigrationStep::Create(t) => SchemaSpec {
            tables: s.tables.insert(t),
            columns: if s.tables.contains(t) {
                s.columns
            } else {
                s.columns.union(born_with(t))
            },
        },
        MigrationStep::AddColumn(c) => SchemaSpec { columns: s.columns.insert(c), ..s },
        MigrationStep::RebuildDispatches { .. } => SchemaSpec {
            columns: s.columns.filter(|c: LateColumn| c.owner() != StoreTable::Dispatches).union(
                born_with(StoreTable::Dispatches),
            ),
            ..s
        },
        _ => s,
    }
}

/// What a store has after steps.
pub open spec fn after_steps(s: SchemaSpec, steps: Seq<MigrationStep>) -> SchemaSpec
    decreases steps.len(),
{
    if steps.len() == 0 {
        s
    } else {
        after_step(after_steps(s, steps.drop_last()), steps.last())
    }
}

/// What a store has after versions were brought in, one after the other.
pub open spec fn after_versions(s: SchemaSpec, versions: Seq<i64>) -> SchemaSpec
    decreases versions.len(),
{
    if versions.len() == 0 {
        s
    } else {
        let before = after_versions(s, versions.drop_last());
        after_steps(before, steps_of(versions.last() as int, before))
    }
}

/// What a store has once it is up to date, where it had so much and the versions were brought in.
pub open spec fn up_to_date(s: SchemaSpec, applied: Seq<i64>) -> SchemaSpec {
    after_versions(s, missing(applied, LATEST_SCHEMA_VERSION as nat))
}


/// What a store has once the versions up to one were brought in.
pub open spec fn at_version(s: SchemaSpec, applied: Seq<i64>, version: nat) -> SchemaSpec {
    after_versions(s, missing(applied, version))
}

proof fn lemma_next_version(s: SchemaSpec, applied: Seq<i64>, version: nat)
    requires
        1 <= version <= 13,
    ensures
        ({
            let before = at_version(s, applied, (version - 1) as nat);
            at_version(s, applied, version) == (if applied.contains(version as i64) {
                before
            } else {
                after_steps(before, steps_of(version as int, before))
            })
        }),
{
    let earlier = missing(applied, (version - 1) as nat);
    if !applied.contains(version as i64) {
        assert(missing(applied, version) == earlier.push(version as i64));
        assert(earlier.push(version as i64).drop_last() =~= earlier);
    }
}

proof fn lemma_steps_keep_tables(s: SchemaSpec, steps: Seq<MigrationStep>, t: StoreTable)
    requires
        s.tables.contains(t),
    ensures
        after_steps(s, steps).tables.contains(t),
    decreases steps.len(),
{
    if steps.len() > 0 {
        lemma_steps_keep_tables(s, steps.drop_last(), t);
    }
}

proof fn lemma_steps_create(s: SchemaSpec, steps: Seq<MigrationStep>, k: int, t: StoreTable)
    requires
        0 <= k < steps.len(),
        steps[k] == MigrationStep::Create(t),
    ensures
        after_steps(s, steps).tables.contains(t),
    decreases steps.len(),
{
    if k < steps.len() - 1 {
        assert(steps.drop_last()[k] == steps[k]);
        lemma_steps_create(s, steps.drop_last(), k, t);
    }
}

proof fn lemma_steps_keep_columns(s: SchemaSpec, steps: Seq<MigrationStep>, c: LateColumn)
    requires
        s.columns.contains(c),
        all_keep(steps),
    ensures
        after_steps(s, steps).columns.contains(c),
    decreases steps.len(),
{
    if steps.len() > 0 {
        let front = steps.drop_last();
        assert forall|k: int| 0 <= k < front.len() implies keeps(#[trigger] front[k]) by {
            assert(front[k] == steps[k]);
        }
        lemma_steps_keep_columns(s, front, c);
        assert(keeps(steps[steps.len() - 1]));
    }
}

proof fn lemma_steps_add(s: SchemaSpec, steps: Seq<MigrationStep>, k: int, c: LateColumn)
    requires
        0 <= k < steps.len(),
        steps[k] == MigrationStep::AddColumn(c),
        all_keep(steps),
    ensures
        after_steps(s, steps).columns.contains(c),
    decreases steps.len(),
{
    if k < steps.len() - 1 {
        let front = steps.drop_last();
        assert forall|j: int| 0 <= j < front.len() implies keeps(#[trigger] front[j]) by {
            assert(front[j] == steps[j]);
        }
        assert(front[k] == steps[k]);
        lemma_steps_add(s, front, k, c);
        assert(keeps(steps[steps.len() - 1]));
    }
}

/// The column tells of a terminal.
pub open spec fn of_terminal(c: LateColumn) -> bool {
    c == LateColumn::TmuxSession || c == LateColumn::TmuxWindow
}

/// The step adds no column of terminals and makes no table anew.
pub open spec fn keeps(step: MigrationStep) -> bool {
    match step {
        MigrationStep::AddColumn(c) => !of_terminal(c),
        MigrationStep::RebuildDispatches { .. } => false,
        _ => true,
    }
}

/// None of the steps adds a column of terminals or makes a table anew.
pub open spec fn all_keep(steps: Seq<MigrationStep>) -> bool {
    forall|k: int| 0 <= k < steps.len() ==> keeps(#[trigger] steps[k])
}

proof fn lemma_keep_both(a: Seq<MigrationStep>, b: Seq<MigrationStep>)
    requires
        all_keep(a),
        all_keep(b),
    ensures
        all_keep(a + b),
{
    assert forall|k: int| 0 <= k < (a + b).len() implies keeps(#[trigger] (a + b)[k]) by {
        if k < a.len() {
            assert((a + b)[k] == a[k]);
        } else {
            assert((a + b)[k] == b[k - a.len()]);
        }
    }
}

proof fn lemma_keep_push(a: Seq<MigrationStep>, step: MigrationStep)
    requires
        all_keep(a),
        keeps(step),
    ensures
        all_keep(a.push(step)),
{
    assert forall|k: int| 0 <= k < a.push(step).len() implies keeps(#[trigger] a.push(step)[k]) by {
        if k < a.len() {
            assert(a.push(step)[k] == a[k]);
        }
    }
}

/// Only one version makes a table anew, and none adds a column of terminals.
proof fn lemma_versions_keep(version: int, s: SchemaSpec)
    requires
        version != 3,
    ensures
        all_keep(steps_of(version, s)),
{
    if version == 2 {
        let a = lacking(s, LateColumn::EventText);
        let b = lacking(s, LateColumn::SourceCommentId);
        let c = lacking(s, LateColumn::SourceCreatedAt);
        let d = lacking(s, LateColumn::BackendKind);
        let e = lacking(s, LateColumn::BackendRef);
        lemma_keep_both(a, b);
        lemma_keep_both(a + b, c);
        lemma_keep_both(a + b + c, d);
        lemma_keep_both(a + b + c + d, e);
    } else if version == 8 {
        let a = lacking(s, LateColumn::DecisionPrincipal);
        let b = lacking(s, LateColumn::DispatchPrincipal);
        let x = MigrationStep::FillPrincipal(StoreTable::Decisions);
        let y = MigrationStep::FillPrincipal(StoreTable::Dispatches);
        lemma_keep_push(a, x);
        lemma_keep_push(b, y);
        lemma_keep_both(
            with_table(s, StoreTable::Decisions, a.push(x)),
            with_table(s, StoreTable::Dispatches, b.push(y)),
        );
    } else if version == 9 || version == 11 {
        let a = lacking(s, LateColumn::ScheduleTimerId);
        let b = lacking(s, LateColumn::TimerContextKey);
        let c = lacking(s, LateColumn::ResumeSessionId);
        lemma_keep_both(a, b);
        lemma_keep_both(a + b, c);
        let d = with_table(s, StoreTable::Decisions, a + b + c);
        let x = MigrationStep::Create(StoreTable::ScheduleClaims);
        lemma_keep_push(d, x);
        lemma_keep_push(d.push(x), MigrationStep::Create(StoreTable::TimerContexts));
    } else if version == 10 {
        let p = lacking(s, LateColumn::PayloadSha256);
        lemma_keep_push(p, MigrationStep::Index(StoreTable::Events));
        let a = with_table(
            s,
            StoreTable::Events,
            p.push(MigrationStep::Index(StoreTable::Events)),
        );
        let b = indexing(s, StoreTable::Decisions);
        let c = indexing(s, StoreTable::Dispatches);
        let d = indexing(s, StoreTable::Heartbeats);
        let e = indexing(s, StoreTable::Reconciles);
        let f = indexing(s, StoreTable::TriggerDispatchDedupes);
        lemma_keep_both(a, b);
        lemma_keep_both(a + b, c);
        lemma_keep_both(a + b + c, d);
        lemma_keep_both(a + b + c + d, e);
        lemma_keep_both(a + b + c + d + e, f);
    } else if version == 7 {
        lemma_keep_both(
            with_table(
                s,
                StoreTable::Decisions,
                seq![MigrationStep::ReplyForPoke(StoreTable::Decisions)],
            ),
            with_table(
                s,
                StoreTable::Dispatches,
                seq![MigrationStep::ReplyForPoke(StoreTable::Dispatches)],
            ),
        );
    } else if version != 1 && version != 4 && version != 5 && version != 6 && version != 12 {
        let a = lacking(s, LateColumn::SupersededByJobId);
        let b = lacking(s, LateColumn::WorkerIdentity);
        lemma_keep_both(a, b);
        let d = with_table(s, StoreTable::DeployJobs, a + b);
        let x = MigrationStep::Create(StoreTable::DeployRuns);
        lemma_keep_push(d, x);
        lemma_keep_push(d.push(x), MigrationStep::Create(StoreTable::DeployReleases));
    }
}

/// The version makes the table.
pub open spec fn brings(version: int, table: StoreTable) -> bool {
    match table {
        StoreTable::NotificationDeliveries => version == 4 || version == 5,
        StoreTable::TriggerDispatchDedupes => version == 6,
        StoreTable::ScheduleClaims => version == 9 || version == 11,
        StoreTable::TimerContexts => version == 9 || version == 11,
        StoreTable::DeployJobs => version == 12,
        StoreTable::DeployRuns => version == 13,
        StoreTable::DeployReleases => version == 13,
        _ => version == 1,
    }
}

proof fn lemma_version_brings(version: int, s: SchemaSpec, t: StoreTable)
    requires
        brings(version, t),
    ensures
        after_steps(s, steps_of(version, s)).tables.contains(t),
{
    let steps = steps_of(version, s);
    let n = steps.len() as int;
    let k = match t {
        StoreTable::Decisions => 1int,
        StoreTable::Heartbeats => 2int,
        StoreTable::Reconciles => 3int,
        StoreTable::Dispatches => 4int,
        StoreTable::DispatchEvents => 5int,
        StoreTable::IssueRoleCursors => 6int,
        StoreTable::Repos => 7int,
        StoreTable::ScheduleClaims => n - 2,
        StoreTable::TimerContexts => n - 1,
        StoreTable::DeployRuns => n - 2,
        StoreTable::DeployReleases => n - 1,
        _ => 0int,
    };
    assert(steps[k] == MigrationStep::Create(t));
    lemma_steps_create(s, steps, k, t);
}

proof fn lemma_tables_stay(s: SchemaSpec, applied: Seq<i64>, from: nat, to: nat, t: StoreTable)
    requires
        from <= to <= 13,
        at_version(s, applied, from).tables.contains(t),
    ensures
        at_version(s, applied, to).tables.contains(t),
    decreases to,
{
    if from < to {
        lemma_tables_stay(s, applied, from, (to - 1) as nat, t);
        lemma_next_version(s, applied, to);
        let before = at_version(s, applied, (to - 1) as nat);
        lemma_steps_keep_tables(before, steps_of(to as int, before), t);
    }
}

/// No table is lost when a store is brought up to date.
pub proof fn law_tables_are_kept(s: SchemaSpec, applied: Seq<i64>, t: StoreTable)
    requires
        s.tables.contains(t),
    ensures
        up_to_date(s, applied).tables.contains(t),
{
    lemma_tables_stay(s, applied, 0, 13, t);
}

/// A store that is brought up to date has every table that a version makes which it did not have yet.
pub proof fn law_versions_bring_their_tables(
    s: SchemaSpec,
    applied: Seq<i64>,
    version: nat,
    t: StoreTable,
)
    requires
        1 <= version <= LATEST_SCHEMA_VERSION,
        !applied.contains(version as i64),
        brings(version as int, t),
    ensures
        up_to_date(s, applied).tables.contains(t),
{
    let before = at_version(s, applied, (version - 1) as nat);
    lemma_next_version(s, applied, version);
    lemma_version_brings(version as int, before, t);
    lemma_tables_stay(s, applied, version, 13, t);
}

proof fn lemma_terminals_stay_away(s: SchemaSpec, steps: Seq<MigrationStep>, c: LateColumn)
    requires
        all_keep(steps),
        of_terminal(c),
        !s.columns.contains(c),
    ensures
        !after_steps(s, steps).columns.contains(c),
    decreases steps.len(),
{
    if steps.len() > 0 {
        let front = steps.drop_last();
        assert forall|k: int| 0 <= k < front.len() implies keeps(#[trigger] front[k]) by {
            assert(front[k] == steps[k]);
        }
        lemma_terminals_stay_away(s, front, c);
        assert(keeps(steps[steps.len() - 1]));
    }
}

proof fn lemma_terminals_gone(s: SchemaSpec, applied: Seq<i64>, to: nat, c: LateColumn)
    requires
        3 <= to <= 13,
        !applied.contains(3),
        of_terminal(c),
    ensures
        !at_version(s, applied, to).columns.contains(c),
    decreases to,
{
    let before = at_version(s, applied, (to - 1) as nat);
    lemma_next_version(s, applied, to);
    if to > 3 {
        lemma_terminals_gone(s, applied, (to - 1) as nat, c);
        lemma_versions_keep(to as int, before);
        lemma_terminals_stay_away(before, steps_of(to as int, before), c);
    } else {
        let steps = steps_of(3, before);
        if steps.len() > 0 {
            reveal_with_fuel(after_steps, 2);
            assert(steps.drop_last() =~= Seq::<MigrationStep>::empty());
            assert(after_steps(before, steps) == after_step(before, steps.last()));
        }
    }
}

/// A store that is brought past the version that drops them has no column of terminals.
pub proof fn law_terminal_columns_go(s: SchemaSpec, applied: Seq<i64>, c: LateColumn)
    requires
        !applied.contains(3),
        of_terminal(c),
    ensures
        !up_to_date(s, applied).columns.contains(c),
{
    lemma_terminals_gone(s, applied, 13, c);
}

/// The version adds the column.
pub open spec fn adds(version: int, column: LateColumn) -> bool {
    match column {
        LateColumn::EventText => version == 2,
        LateColumn::SourceCommentId => version == 2,
        LateColumn::SourceCreatedAt => version == 2,
        LateColumn::BackendKind => version == 2,
        LateColumn::BackendRef => version == 2,
        LateColumn::DecisionPrincipal => version == 8,
        LateColumn::DispatchPrincipal => version == 8,
        LateColumn::ScheduleTimerId => version == 9 || version == 11,
        LateColumn::TimerContextKey => version == 9 || version == 11,
        LateColumn::ResumeSessionId => version == 9 || version == 11,
        LateColumn::PayloadSha256 => version == 10,
        LateColumn::SupersededByJobId => version == 13,
        LateColumn::WorkerIdentity => version == 13,
        LateColumn::TmuxSession => false,
        LateColumn::TmuxWindow => false,
    }
}

/// The steps in front of the one for a column, among those of the version.
spec fn in_front(s: SchemaSpec, column: LateColumn) -> Seq<MigrationStep> {
    match column {
        LateColumn::SourceCommentId => lacking(s, LateColumn::EventText),
        LateColumn::SourceCreatedAt => lacking(s, LateColumn::EventText) + lacking(
            s,
            LateColumn::SourceCommentId,
        ),
        LateColumn::BackendKind => lacking(s, LateColumn::EventText) + lacking(
            s,
            LateColumn::SourceCommentId,
        ) + lacking(s, LateColumn::SourceCreatedAt),
        LateColumn::BackendRef => lacking(s, LateColumn::EventText) + lacking(
            s,
            LateColumn::SourceCommentId,
        ) + lacking(s, LateColumn::SourceCreatedAt) + lacking(s, LateColumn::BackendKind),
        LateColumn::DispatchPrincipal => with_table(
            s,
            StoreTable::Decisions,
            lacking(s, LateColumn::DecisionPrincipal).push(
                MigrationStep::FillPrincipal(StoreTable::Decisions),
            ),
        ),
        LateColumn::TimerContextKey => lacking(s, LateColumn::ScheduleTimerId),
        LateColumn::ResumeSessionId => lacking(s, LateColumn::ScheduleTimerId) + lacking(
            s,
            LateColumn::TimerContextKey,
        ),
        LateColumn::WorkerIdentity => lacking(s, LateColumn::SupersededByJobId),
        _ => Seq::empty(),
    }
}

proof fn lemma_version_adds(version: int, s: SchemaSpec, c: LateColumn)
    requires
        adds(version, c),
        version == 2 || s.tables.contains(c.owner()),
    ensures
        after_steps(s, steps_of(version, s)).columns.contains(c),
{
    let steps = steps_of(version, s);
    lemma_versions_keep(version, s);
    if s.columns.contains(c) {
        lemma_steps_keep_columns(s, steps, c);
    } else {
        let k = in_front(s, c).len() as int;
        assert(steps[k] == MigrationStep::AddColumn(c));
        lemma_steps_add(s, steps, k, c);
    }
}

proof fn lemma_columns_stay(s: SchemaSpec, applied: Seq<i64>, from: nat, to: nat, c: LateColumn)
    requires
        3 <= from <= to <= 13,
        at_version(s, applied, from).columns.contains(c),
    ensures
        at_version(s, applied, to).columns.contains(c),
    decreases to,
{
    if from < to {
        lemma_columns_stay(s, applied, from, (to - 1) as nat, c);
        lemma_next_version(s, applied, to);
        let before = at_version(s, applied, (to - 1) as nat);
        lemma_versions_keep(to as int, before);
        lemma_steps_keep_columns(before, steps_of(to as int, before), c);
    }
}

/// A store that is brought up to date has every column that a version adds which it did not have yet. All
/// versions but one add columns only to tables that are there.
pub proof fn law_versions_add_their_columns(
    s: SchemaSpec,
    applied: Seq<i64>,
    version: nat,
    c: LateColumn,
)
    requires
        1 <= version <= LATEST_SCHEMA_VERSION,
        !applied.contains(version as i64),
        adds(version as int, c),
        version == 2 || at_version(s, applied, (version - 1) as nat).tables.contains(c.owner()),
    ensures
        up_to_date(s, applied).columns.contains(c),
{
    let before = at_version(s, applied, (version - 1) as nat);
    lemma_next_version(s, applied, version);
    lemma_version_adds(version as int, before, c);
    if version == 2 {
        let two = at_version(s, applied, 2);
        lemma_next_version(s, applied, 3);
        let steps = steps_of(3, two);
        if steps.len() > 0 {
            reveal_with_fuel(after_steps, 2);
            assert(steps.drop_last() =~= Seq::<MigrationStep>::empty());
            assert(after_steps(two, steps) == after_step(two, steps.last()));
        }
        assert(at_version(s, applied, 3).columns.contains(c));
        lemma_columns_stay(s, applied, 3, 13, c);
    } else {
        lemma_columns_stay(s, applied, version, 13, c);
    }
}

/// The steps add only columns that the store lacks.
pub open spec fn add_what_lacks(s: SchemaSpec, steps: Seq<MigrationStep>) -> bool {
    forall|k: int|
        0 <= k < steps.len() ==> (#[trigger] steps[k] matches MigrationStep::AddColumn(c)
            ==> !s.columns.contains(c))
}

/// Steps that add only what lacks do so in a row.
proof fn lemma_rows_add_what_lacks(s: SchemaSpec, a: Seq<MigrationStep>, b: Seq<MigrationStep>)
    requires
        add_what_lacks(s, a),
        add_what_lacks(s, b),
    ensures
        add_what_lacks(s, a + b),
{
    let t = a + b;
    assert forall|k: int| 0 <= k < t.len() implies (#[trigger] t[k] matches MigrationStep::AddColumn(c)
        ==> !s.columns.contains(c)) by {
        if k < a.len() {
            assert(t[k] == a[k]);
        } else {
            assert(t[k] == b[k - a.len()]);
        }
    }
}

/// A step that adds no column may follow.
proof fn lemma_others_add_nothing(s: SchemaSpec, a: Seq<MigrationStep>, step: MigrationStep)
    requires
        add_what_lacks(s, a),
        !(step is AddColumn),
    ensures
        add_what_lacks(s, a.push(step)),
{
    let t = a.push(step);
    assert forall|k: int| 0 <= k < t.len() implies (#[trigger] t[k] matches MigrationStep::AddColumn(c)
        ==> !s.columns.contains(c)) by {
        if k < a.len() {
            assert(t[k] == a[k]);
        }
    }
}

/// Three columns are added where they lack.
proof fn lemma_three_lack(s: SchemaSpec, a: LateColumn, b: LateColumn, c: LateColumn)
    ensures
        add_what_lacks(s, lacking(s, a) + lacking(s, b)),
        add_what_lacks(s, lacking(s, a) + lacking(s, b) + lacking(s, c)),
{
    lemma_rows_add_what_lacks(s, lacking(s, a), lacking(s, b));
    lemma_rows_add_what_lacks(s, lacking(s, a) + lacking(s, b), lacking(s, c));
}

/// A column is added only where the store lacks it, whatever the version.
pub proof fn law_no_column_is_added_twice(version: int, s: SchemaSpec)
    ensures
        forall|k: int|
            0 <= k < steps_of(version, s).len() ==> (#[trigger] steps_of(version, s)[k] matches
                MigrationStep::AddColumn(c) ==> !s.columns.contains(c)),
{
    let none = Seq::<MigrationStep>::empty();
    assert(add_what_lacks(s, none));
    if version == 2 {
        lemma_three_lack(
            s,
            LateColumn::EventText,
            LateColumn::SourceCommentId,
            LateColumn::SourceCreatedAt,
        );
        let three = lacking(s, LateColumn::EventText) + lacking(s, LateColumn::SourceCommentId)
            + lacking(s, LateColumn::SourceCreatedAt);
        lemma_rows_add_what_lacks(s, three, lacking(s, LateColumn::BackendKind));
        lemma_rows_add_what_lacks(
            s,
            three + lacking(s, LateColumn::BackendKind),
            lacking(s, LateColumn::BackendRef),
        );
    } else if version == 8 {
        lemma_others_add_nothing(
            s,
            lacking(s, LateColumn::DecisionPrincipal),
            MigrationStep::FillPrincipal(StoreTable::Decisions),
        );
        lemma_others_add_nothing(
            s,
            lacking(s, LateColumn::DispatchPrincipal),
            MigrationStep::FillPrincipal(StoreTable::Dispatches),
        );
        lemma_rows_add_what_lacks(
            s,
            with_table(
                s,
                StoreTable::Decisions,
                lacking(s, LateColumn::DecisionPrincipal).push(
                    MigrationStep::FillPrincipal(StoreTable::Decisions),
                ),
            ),
            with_table(
                s,
                StoreTable::Dispatches,
                lacking(s, LateColumn::DispatchPrincipal).push(
                    MigrationStep::FillPrincipal(StoreTable::Dispatches),
                ),
            ),
        );
    } else if version == 9 || version == 11 {
        lemma_three_lack(
            s,
            LateColumn::ScheduleTimerId,
            LateColumn::TimerContextKey,
            LateColumn::ResumeSessionId,
        );
        let columns = with_table(
            s,
            StoreTable::Decisions,
            lacking(s, LateColumn::ScheduleTimerId) + lacking(s, LateColumn::TimerContextKey) + lacking(
                s,
                LateColumn::ResumeSessionId,
            ),
        );
        lemma_others_add_nothing(s, columns, MigrationStep::Create(StoreTable::ScheduleClaims));
        lemma_others_add_nothing(
            s,
            columns.push(MigrationStep::Create(StoreTable::ScheduleClaims)),
            MigrationStep::Create(StoreTable::TimerContexts),
        );
        assert(add_what_lacks(s, steps_of(version, s)));
    } else if version == 10 {
        let events = with_table(
            s,
            StoreTable::Events,
            lacking(s, LateColumn::PayloadSha256).push(MigrationStep::Index(StoreTable::Events)),
        );
        lemma_others_add_nothing(
            s,
            lacking(s, LateColumn::PayloadSha256),
            MigrationStep::Index(StoreTable::Events),
        );
        let a = events + indexing(s, StoreTable::Decisions);
        let b = a + indexing(s, StoreTable::Dispatches);
        let c = b + indexing(s, StoreTable::Heartbeats);
        let d = c + indexing(s, StoreTable::Reconciles);
        lemma_rows_add_what_lacks(s, events, indexing(s, StoreTable::Decisions));
        lemma_rows_add_what_lacks(s, a, indexing(s, StoreTable::Dispatches));
        lemma_rows_add_what_lacks(s, b, indexing(s, StoreTable::Heartbeats));
        lemma_rows_add_what_lacks(s, c, indexing(s, StoreTable::Reconciles));
        lemma_rows_add_what_lacks(s, d, indexing(s, StoreTable::TriggerDispatchDedupes));
        assert(add_what_lacks(s, steps_of(version, s)));
    } else if version > 12 || version < 1 {
        lemma_three_lack(
            s,
            LateColumn::SupersededByJobId,
            LateColumn::WorkerIdentity,
            LateColumn::WorkerIdentity,
        );
        let columns = with_table(
            s,
            StoreTable::DeployJobs,
            lacking(s, LateColumn::SupersededByJobId) + lacking(s, LateColumn::WorkerIdentity),
        );
        lemma_others_add_nothing(s, columns, MigrationStep::Create(StoreTable::DeployRuns));
        lemma_others_add_nothing(
            s,
            columns.push(MigrationStep::Create(StoreTable::DeployRuns)),
            MigrationStep::Create(StoreTable::DeployReleases),
        );
        assert(add_what_lacks(s, steps_of(version, s)));
    }
}

/// The table of dispatches is made anew exactly where it has a column of terminals, and says which.
pub proof fn law_dispatches_are_rebuilt_for_terminals(s: SchemaSpec)
    ensures
        ({
            let session = s.columns.contains(LateColumn::TmuxSession);
            let window = s.columns.contains(LateColumn::TmuxWindow);
            &&& session || window ==> steps_of(3, s) == seq![
                MigrationStep::RebuildDispatches { session, window },
            ]
            &&& !session && !window ==> steps_of(3, s).len() == 0
        }),
{
}

/// The directive is renamed, and principals are filled in, in each of the two tables that there are.
pub proof fn law_rows_are_brought_up_to_date(s: SchemaSpec)
    ensures
        s.tables.contains(StoreTable::Decisions) <==> steps_of(7, s).contains(
            MigrationStep::ReplyForPoke(StoreTable::Decisions),
        ),
        s.tables.contains(StoreTable::Dispatches) <==> steps_of(7, s).contains(
            MigrationStep::ReplyForPoke(StoreTable::Dispatches),
        ),
        s.tables.contains(StoreTable::Decisions) <==> steps_of(8, s).contains(
            MigrationStep::FillPrincipal(StoreTable::Decisions),
        ),
        s.tables.contains(StoreTable::Dispatches) <==> steps_of(8, s).contains(
            MigrationStep::FillPrincipal(StoreTable::Dispatches),
        ),
{
    let a = seq![MigrationStep::ReplyForPoke(StoreTable::Decisions)];
    let b = seq![MigrationStep::ReplyForPoke(StoreTable::Dispatches)];
    let n = with_table(s, StoreTable::Decisions, a).len() as int;
    if s.tables.contains(StoreTable::Decisions) {
        assert(steps_of(7, s)[0] == MigrationStep::ReplyForPoke(StoreTable::Decisions));
        let m = lacking(s, LateColumn::DecisionPrincipal).len() as int;
        assert(steps_of(8, s)[m] == MigrationStep::FillPrincipal(StoreTable::Decisions));
    }
    if s.tables.contains(StoreTable::Dispatches) {
        assert(steps_of(7, s)[n] == MigrationStep::ReplyForPoke(StoreTable::Dispatches));
        assert(steps_of(8, s).last() == MigrationStep::FillPrincipal(StoreTable::Dispatches));
        assert(steps_of(8, s)[steps_of(8, s).len() - 1] == steps_of(8, s).last());
    }
}

/// A step is written for its table: a column is added to the table that it is of, with its type, and rows
/// are changed where they need it.
pub proof fn law_steps_are_written_for_their_table(c: LateColumn, t: StoreTable)
    ensures
        sql_of(MigrationStep::AddColumn(c)) == "ALTER TABLE "@ + c.owner().word() + " ADD COLUMN "@
            + c.words().0 + " "@ + c.words().1,
        sql_of(MigrationStep::ReplyForPoke(t)) == "UPDATE "@ + t.word()
            + " SET directive = 'reply' WHERE directive = 'poke'"@,
        sql_of(MigrationStep::FillPrincipal(t)) == "UPDATE "@ + t.word()
            + " SET principal_login = actor_login WHERE principal_login IS NULL AND actor_login IS NOT NULL"@,
        sql_of(MigrationStep::Index(StoreTable::Events))
            == "CREATE INDEX IF NOT EXISTS "@ + "idx_events_received_at"@ + " ON "@ + "events"@ + " ("@
            + "received_at"@ + ");"@,
        sql_of(MigrationStep::Index(StoreTable::Decisions))
            == "CREATE INDEX IF NOT EXISTS "@ + "idx_decisions_event_id"@ + " ON "@ + "decisions"@ + " ("@
            + "event_id"@ + ");"@,
        sql_of(MigrationStep::Index(StoreTable::Dispatches))
            == "CREATE INDEX IF NOT EXISTS "@ + "idx_dispatches_decision_id"@ + " ON "@ + "dispatches"@
            + " ("@ + "decision_id"@ + ");"@,
{
}

/// Late columns are of the tables of events, decisions, dispatches and deploys, under their names.
pub proof fn law_late_columns_are_of_their_tables(c: LateColumn)
    ensures
        c.owner() == StoreTable::Events <==> (c == LateColumn::EventText || c
            == LateColumn::SourceCommentId || c == LateColumn::SourceCreatedAt || c
            == LateColumn::PayloadSha256),
        c.owner() == StoreTable::DeployJobs <==> (c == LateColumn::SupersededByJobId || c
            == LateColumn::WorkerIdentity),
        c.owner() == StoreTable::Decisions <==> (c == LateColumn::DecisionPrincipal || c
            == LateColumn::ScheduleTimerId || c == LateColumn::TimerContextKey || c
            == LateColumn::ResumeSessionId),
        LateColumn::EventText.words().0 == "event_text"@,
        LateColumn::SourceCommentId.words().0 == "source_comment_id"@,
        LateColumn::SourceCreatedAt.words().0 == "source_created_at"@,
        LateColumn::PayloadSha256.words().0 == "payload_sha256"@,
        LateColumn::DecisionPrincipal.words().0 == "principal_login"@,
        LateColumn::DispatchPrincipal.words().0 == "principal_login"@,
        LateColumn::BackendKind.words().0 == "backend_kind"@,
        LateColumn::BackendRef.words().0 == "backend_ref"@,
        LateColumn::TmuxSession.words().0 == "tmux_session"@,
        LateColumn::TmuxWindow.words().0 == "tmux_window"@,
        StoreTable::Events.word() == "events"@,
        StoreTable::Decisions.word() == "decisions"@,
        StoreTable::Dispatches.word() == "dispatches"@,
        StoreTable::DeployJobs.word() == "deploy_jobs"@,
{
}

/// A column of terminals that is there is read when the table is made anew, and nothing in place of one
/// that is not.
pub proof fn law_terminal_columns_are_read_where_they_are(column: Seq<char>)
    ensures
        expression(true, column) == column,
        expression(false, column) == "NULL"@,
{
}

/// The columns of terminals tell the backend where it is not told otherwise: both of them its name, and
/// either of them its kind.
pub proof fn law_terminals_become_the_backend(session: bool, window: bool)
    ensures
        ({
            let s = if session {
                "tmux_session"@
            } else {
                "NULL"@
            };
            let w = if window {
                "tmux_window"@
            } else {
                "NULL"@
            };
            rebuild_sql(session, window) == "CREATE TABLE dispatches_new"@ + DISPATCH_COLUMNS@
                + "INSERT INTO dispatches_new ("@ + KEPT_BEFORE@ + ", backend_kind, backend_ref, "@
                + KEPT_BEHIND@ + ") SELECT "@ + KEPT_BEFORE@
                + ", CASE WHEN backend_kind IS NOT NULL AND trim(backend_kind) <> '' THEN backend_kind WHEN "@
                + s + " IS NOT NULL OR "@ + w
                + " IS NOT NULL THEN 'tmux' ELSE NULL END, CASE WHEN backend_ref IS NOT NULL AND trim(backend_ref) <> '' THEN backend_ref WHEN "@
                + s + " IS NOT NULL AND "@ + w + " IS NOT NULL THEN "@ + s + " || ':' || "@ + w
                + " ELSE NULL END, "@ + KEPT_BEHIND@
                + " FROM dispatches; DROP TABLE dispatches; ALTER TABLE dispatches_new RENAME TO dispatches; "@
                + DISPATCH_INDEXES@
        }),
{
}

} // verus!
