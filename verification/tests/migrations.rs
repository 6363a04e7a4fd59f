use orchd::migrations::{
    current_schema_version, migrations_verdict, name_of_migration, pending_migrations,
    LATEST_SCHEMA_VERSION,
};
use orchd::schema::{
    migration_steps, read_schema, step_sql, FoundTable, LateColumn, MigrationStep, StoreSchema,
    StoreTable,
};
use rusqlite::Connection;

fn names(conn: &Connection, query: &str, column: usize) -> Vec<String> {
    let mut stmt = conn.prepare(query).expect("prepare");
    let rows = stmt.query_map((), |row| row.get::<_, String>(column)).expect("query");
    rows.map(|name| name.expect("row")).collect()
}

fn columns(conn: &Connection, table: &str) -> Vec<String> {
    names(conn, &format!("PRAGMA table_info({table})"), 1)
}

fn tables(conn: &Connection) -> Vec<String> {
    names(conn, "SELECT name FROM sqlite_master WHERE type = 'table'", 0)
}

fn table_exists(conn: &Connection, table: &str) -> bool {
    tables(conn).iter().any(|name| name == table)
}

fn table_has_column(conn: &Connection, table: &str, column: &str) -> bool {
    columns(conn, table).iter().any(|name| name == column)
}

fn schema(conn: &Connection) -> StoreSchema {
    let found: Vec<FoundTable> = tables(conn)
        .into_iter()
        .map(|name| FoundTable { columns: columns(conn, &name), name })
        .collect();
    read_schema(&found)
}

fn applied(conn: &Connection) -> Vec<i64> {
    if !table_exists(conn, "schema_migrations") {
        return Vec::new();
    }
    let mut stmt = conn.prepare("SELECT version FROM schema_migrations").expect("prepare");
    let rows = stmt.query_map((), |row| row.get::<_, i64>(0)).expect("query");
    rows.map(|version| version.expect("row")).collect()
}

fn apply_all(conn: &Connection) {
    conn.execute_batch(
        "CREATE TABLE IF NOT EXISTS schema_migrations (
            version INTEGER PRIMARY KEY, name TEXT NOT NULL, applied_at TEXT NOT NULL);",
    )
    .expect("versions");
    for version in pending_migrations(&applied(conn)) {
        let steps = migration_steps(version, &schema(conn));
        let rebuilds =
            steps.iter().any(|step| matches!(step, MigrationStep::RebuildDispatches { .. }));
        if rebuilds {
            conn.execute_batch("PRAGMA foreign_keys = OFF;").expect("keys off");
        }
        for step in steps {
            conn.execute_batch(&step_sql(step)).expect("step");
        }
        if rebuilds {
            conn.execute_batch("PRAGMA foreign_keys = ON;").expect("keys on");
        }
        conn.execute(
            "INSERT INTO schema_migrations(version, name, applied_at) VALUES(?1, ?2, 'now')",
            (version, name_of_migration(version)),
        )
        .expect("record");
    }
    migrations_verdict(current_schema_version(&applied(conn))).expect("latest");
}

fn fresh() -> Connection {
    Connection::open_in_memory().expect("open in-memory db")
}

#[test]
fn apply_all_creates_latest_schema_on_new_db() {
    let conn = fresh();
    apply_all(&conn);
    assert!(table_exists(&conn, "notification_deliveries"));
    assert!(table_exists(&conn, "trigger_dispatch_dedupes"));
    assert!(table_exists(&conn, "schedule_claims"));
    assert!(table_exists(&conn, "timer_contexts"));
    assert!(table_exists(&conn, "deploy_jobs"));
    assert!(table_exists(&conn, "deploy_runs"));
    assert!(table_exists(&conn, "deploy_releases"));
    assert!(!table_has_column(&conn, "dispatches", "tmux_session"));
    assert!(!table_has_column(&conn, "dispatches", "tmux_window"));
    assert!(table_has_column(&conn, "dispatches", "backend_kind"));
    assert!(table_has_column(&conn, "dispatches", "backend_ref"));
    assert!(table_has_column(&conn, "decisions", "principal_login"));
    assert!(table_has_column(&conn, "decisions", "schedule_timer_id"));
    assert!(table_has_column(&conn, "decisions", "timer_context_key"));
    assert!(table_has_column(&conn, "decisions", "resume_session_id"));
    assert!(table_has_column(&conn, "dispatches", "principal_login"));
    assert!(table_has_column(&conn, "trigger_dispatch_dedupes", "dedupe_key"));
    assert_eq!(current_schema_version(&applied(&conn)), LATEST_SCHEMA_VERSION);
}

#[test]
fn migration_rebuilds_legacy_dispatches_and_keeps_rows() {
    let conn = fresh();
    conn.execute_batch(
        r"
        CREATE TABLE schema_migrations (
            version INTEGER PRIMARY KEY,
            name TEXT NOT NULL,
            applied_at TEXT NOT NULL
        );
        INSERT INTO schema_migrations(version, name, applied_at) VALUES
            (1, 'bootstrap_core_tables', '2026-01-01T00:00:00Z'),
            (2, 'add_late_columns', '2026-01-01T00:00:01Z');
        CREATE TABLE decisions (
            id INTEGER PRIMARY KEY AUTOINCREMENT,
            event_id INTEGER NOT NULL,
            repo_full_name TEXT NOT NULL,
            issue_number INTEGER,
            actor_login TEXT,
            directive TEXT,
            target_role TEXT,
            decision TEXT NOT NULL,
            reason_code TEXT NOT NULL,
            would_dispatch INTEGER NOT NULL,
            comment_posted INTEGER NOT NULL DEFAULT 0,
            comment_error TEXT,
            created_at TEXT NOT NULL
        );
        INSERT INTO decisions(event_id, repo_full_name, issue_number, actor_login, directive, target_role, decision, reason_code, would_dispatch, created_at)
        VALUES (1, 'main/forgejo-work', 1, 'main', 'poke', 'codex-orch', 'accepted', 'explicit_directive', 1, '2026-01-01T00:00:00Z');
        CREATE TABLE dispatches (
            id INTEGER PRIMARY KEY AUTOINCREMENT,
            decision_id INTEGER NOT NULL,
            repo_full_name TEXT NOT NULL,
            issue_number INTEGER NOT NULL,
            actor_login TEXT,
            directive TEXT NOT NULL,
            target_role TEXT NOT NULL,
            status TEXT NOT NULL,
            reason_code TEXT,
            error_text TEXT,
            tmux_session TEXT,
            tmux_window TEXT,
            run_dir TEXT,
            lock_path TEXT,
            codex_session_id TEXT,
            exit_code INTEGER,
            started_at TEXT NOT NULL,
            ended_at TEXT,
            backend_kind TEXT,
            backend_ref TEXT,
            FOREIGN KEY(decision_id) REFERENCES decisions(id)
        );
        INSERT INTO dispatches(
            decision_id, repo_full_name, issue_number, actor_login, directive, target_role, status,
            reason_code, error_text, tmux_session, tmux_window, run_dir, lock_path, codex_session_id, exit_code, started_at, ended_at, backend_kind, backend_ref
        ) VALUES (
            1, 'main/forgejo-work', 1, 'main', 'poke', 'codex-orch', 'completed',
            'completed', NULL, 'codex-orch', 'rmain-forgejo-work-i1', '/tmp/run', '/tmp/lock', 'abc', 0, '2026-01-01T00:00:00Z', '2026-01-01T00:01:00Z', NULL, NULL
        );
        ",
    )
    .expect("seed legacy schema");

    apply_all(&conn);

    assert!(table_exists(&conn, "notification_deliveries"));
    assert!(table_exists(&conn, "trigger_dispatch_dedupes"));
    assert!(table_exists(&conn, "schedule_claims"));
    assert!(table_exists(&conn, "timer_contexts"));
    assert!(table_exists(&conn, "deploy_jobs"));
    assert!(table_exists(&conn, "deploy_runs"));
    assert!(table_exists(&conn, "deploy_releases"));
    assert!(!table_has_column(&conn, "dispatches", "tmux_session"));
    assert!(!table_has_column(&conn, "dispatches", "tmux_window"));
    assert!(table_has_column(&conn, "trigger_dispatch_dedupes", "dedupe_key"));
    assert!(table_has_column(&conn, "decisions", "schedule_timer_id"));
    assert!(table_has_column(&conn, "decisions", "timer_context_key"));
    assert!(table_has_column(&conn, "decisions", "resume_session_id"));

    let (kind, backend_ref, directive, principal): (Option<String>, Option<String>, String, Option<String>) = conn
        .query_row(
            "SELECT backend_kind, backend_ref, directive, principal_login FROM dispatches WHERE id = 1",
            (),
            |row| Ok((row.get(0)?, row.get(1)?, row.get(2)?, row.get(3)?)),
        )
        .expect("query migrated dispatch");
    assert_eq!(kind.as_deref(), Some("tmux"));
    assert_eq!(backend_ref.as_deref(), Some("codex-orch:rmain-forgejo-work-i1"));
    assert_eq!(directive.as_str(), "reply");
    assert_eq!(principal.as_deref(), Some("main"));
    assert_eq!(current_schema_version(&applied(&conn)), LATEST_SCHEMA_VERSION);
}

#[test]
fn migration_compat_heals_timer_schema_when_db_already_has_legacy_v10() {
    let conn = fresh();
    conn.execute_batch(
        r"
        CREATE TABLE schema_migrations (
            version INTEGER PRIMARY KEY,
            name TEXT NOT NULL,
            applied_at TEXT NOT NULL
        );
        INSERT INTO schema_migrations(version, name, applied_at) VALUES
            (1, 'bootstrap_core_tables', '2026-01-01T00:00:00Z'),
            (2, 'add_late_columns', '2026-01-01T00:00:01Z'),
            (3, 'drop_legacy_tmux_dispatch_columns', '2026-01-01T00:00:02Z'),
            (4, 'add_notification_deliveries_table', '2026-01-01T00:00:03Z'),
            (5, 'ensure_notification_deliveries_table', '2026-01-01T00:00:04Z'),
            (6, 'ensure_trigger_dispatch_dedupe_table', '2026-01-01T00:00:05Z'),
            (7, 'canonicalize_poke_directive_to_reply', '2026-01-01T00:00:06Z'),
            (8, 'add_dispatch_principal_logins', '2026-01-01T00:00:07Z'),
            (9, 'add_events_payload_sha256', '2026-01-01T00:00:08Z'),
            (10, 'add_prune_support_indexes', '2026-01-01T00:00:09Z');
        CREATE TABLE decisions (
            id INTEGER PRIMARY KEY AUTOINCREMENT,
            event_id INTEGER NOT NULL,
            repo_full_name TEXT NOT NULL,
            issue_number INTEGER,
            actor_login TEXT,
            directive TEXT,
            target_role TEXT,
            decision TEXT NOT NULL,
            reason_code TEXT NOT NULL,
            would_dispatch INTEGER NOT NULL,
            comment_posted INTEGER NOT NULL DEFAULT 0,
            comment_error TEXT,
            created_at TEXT NOT NULL,
            principal_login TEXT
        );
        CREATE TABLE events (
            id INTEGER PRIMARY KEY AUTOINCREMENT,
            delivery_id TEXT NOT NULL,
            event_type TEXT NOT NULL,
            repo_full_name TEXT NOT NULL,
            issue_number INTEGER,
            action TEXT,
            actor_login TEXT,
            raw_json TEXT NOT NULL,
            received_at TEXT NOT NULL,
            event_text TEXT,
            source_comment_id INTEGER,
            source_created_at TEXT,
            payload_sha256 TEXT NOT NULL DEFAULT ''
        );
        ",
    )
    .expect("seed legacy v10 schema");

    apply_all(&conn);
    assert!(table_has_column(&conn, "decisions", "schedule_timer_id"));
    assert!(table_has_column(&conn, "decisions", "timer_context_key"));
    assert!(table_has_column(&conn, "decisions", "resume_session_id"));
    assert!(table_exists(&conn, "schedule_claims"));
    assert!(table_exists(&conn, "timer_contexts"));
    assert!(table_exists(&conn, "deploy_jobs"));
    assert!(table_exists(&conn, "deploy_runs"));
    assert!(table_exists(&conn, "deploy_releases"));
    assert_eq!(current_schema_version(&applied(&conn)), LATEST_SCHEMA_VERSION);
}

#[test]
fn apply_all_upgrades_notification_only_schema_to_include_trigger_dedupes() {
    let conn = fresh();
    conn.execute_batch(
        r"
        CREATE TABLE schema_migrations (
            version INTEGER PRIMARY KEY,
            name TEXT NOT NULL,
            applied_at TEXT NOT NULL
        );
        INSERT INTO schema_migrations(version, name, applied_at) VALUES
            (1, 'bootstrap_core_tables', '2026-01-01T00:00:00Z'),
            (2, 'add_late_columns', '2026-01-01T00:00:01Z'),
            (3, 'drop_legacy_tmux_dispatch_columns', '2026-01-01T00:00:02Z'),
            (4, 'add_notification_deliveries_table', '2026-01-01T00:00:03Z'),
            (5, 'ensure_notification_deliveries_table', '2026-01-01T00:00:04Z');
        CREATE TABLE notification_deliveries (
            dedupe_key TEXT PRIMARY KEY,
            category TEXT NOT NULL,
            sent_at TEXT NOT NULL
        );
        ",
    )
    .expect("seed notification-only schema");

    apply_all(&conn);

    assert!(table_exists(&conn, "notification_deliveries"));
    assert!(table_exists(&conn, "trigger_dispatch_dedupes"));
    assert!(table_exists(&conn, "schedule_claims"));
    assert!(table_exists(&conn, "timer_contexts"));
    assert!(table_exists(&conn, "deploy_jobs"));
    assert!(table_exists(&conn, "deploy_runs"));
    assert!(table_exists(&conn, "deploy_releases"));
    assert_eq!(current_schema_version(&applied(&conn)), LATEST_SCHEMA_VERSION);
}

#[test]
fn current_db_schema_version_defaults_to_zero_without_table() {
    let conn = fresh();
    assert_eq!(current_schema_version(&applied(&conn)), 0);
    assert_eq!(current_schema_version(&vec![3, 13, 2]), 13);
}

#[test]
fn terminals_are_dropped_with_what_they_tell() {
    let found = vec![FoundTable {
        name: "dispatches".to_string(),
        columns: vec!["id".to_string(), "tmux_window".to_string(), "backend_kind".to_string()],
    }];
    let schema = read_schema(&found);
    assert!(schema.table_exists(StoreTable::Dispatches));
    assert!(!schema.table_exists(StoreTable::Events));
    assert!(schema.table_has_column(LateColumn::TmuxWindow));
    assert!(!schema.table_has_column(LateColumn::TmuxSession));
    let steps = migration_steps(3, &schema);
    assert_eq!(steps, vec![MigrationStep::RebuildDispatches { session: false, window: true }]);
    let sql = step_sql(steps[0]);
    assert!(sql.contains("WHEN NULL IS NOT NULL OR tmux_window IS NOT NULL THEN 'tmux'"));
    assert_eq!(
        step_sql(MigrationStep::AddColumn(LateColumn::PayloadSha256)),
        "ALTER TABLE events ADD COLUMN payload_sha256 TEXT NOT NULL DEFAULT ''"
    );
    assert!(migration_steps(7, &read_schema(&Vec::new())).is_empty());
}

#[test]
fn steps_change_a_store_as_they_say() {
    let conn = fresh();
    apply_all(&conn);
    let all = schema(&conn);
    assert!(all.table_exists(StoreTable::Repos));
    assert!(all.table_exists(StoreTable::IssueRoleCursors));
    assert!(all.table_has_column(LateColumn::EventText));
    assert!(all.table_has_column(LateColumn::PayloadSha256));
    assert!(all.table_has_column(LateColumn::WorkerIdentity));
    for version in 1..=LATEST_SCHEMA_VERSION {
        for step in migration_steps(version, &all) {
            assert!(!matches!(step, MigrationStep::AddColumn(_)));
        }
    }
}

#[test]
fn steps_are_written_in_sql() {
    assert_eq!(
        step_sql(MigrationStep::ReplyForPoke(StoreTable::Decisions)),
        "UPDATE decisions SET directive = 'reply' WHERE directive = 'poke'"
    );
    assert_eq!(
        step_sql(MigrationStep::FillPrincipal(StoreTable::Dispatches)),
        "UPDATE dispatches SET principal_login = actor_login WHERE principal_login IS NULL AND actor_login IS NOT NULL"
    );
    assert_eq!(
        step_sql(MigrationStep::Index(StoreTable::Heartbeats)).trim_end_matches(';'),
        "CREATE INDEX IF NOT EXISTS idx_heartbeats_recorded_at ON heartbeats (recorded_at)"
    );
    assert_eq!(
        step_sql(MigrationStep::AddColumn(LateColumn::SupersededByJobId)),
        "ALTER TABLE deploy_jobs ADD COLUMN superseded_by_job_id INTEGER"
    );
}

#[test]
fn runs_end_at_the_latest_version() {
    let mut versions: Vec<i64> = vec![4, 1];
    versions.extend(pending_migrations(&versions));
    assert_eq!(current_schema_version(&versions), LATEST_SCHEMA_VERSION);
    versions.push(LATEST_SCHEMA_VERSION + 1);
    assert!(migrations_verdict(current_schema_version(&versions)).is_err());
}
