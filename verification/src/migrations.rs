//! The schema of the store: its versions, and which of them are still to be brought in.

use crate::text::{cat4, cat5, decimal_int, i64_text};
use vstd::prelude::*;
use vstd::string::*;

verus! {

/// The newest version of the schema.
pub const LATEST_SCHEMA_VERSION: i64 = 13;

/// The oldest version of the schema that the orchestrator works with.
pub const MIN_COMPAT_SCHEMA_VERSION: i64 = 1;

/// The newest version of the schema, and the oldest that the orchestrator works with.
pub fn schema_contract() -> (r: (i64, i64))
    ensures
        r == (13i64, 1i64),
{
    (LATEST_SCHEMA_VERSION, MIN_COMPAT_SCHEMA_VERSION)
}

/// What the orchestrator prints of its schema.
pub fn schema_contract_text(json: bool) -> (r: String)
    ensures
        r@ == (if json {
            "{\"latest\":"@ + decimal_int(13) + ",\"min_compatible\":"@ + decimal_int(1) + "}"@
        } else {
            "latest="@ + decimal_int(13) + "\nmin_compatible="@ + decimal_int(1)
        }),
{
    let (latest, min_compatible) = schema_contract();
    let a = i64_text(latest);
    let b = i64_text(min_compatible);
    if json {
        cat5("{\"latest\":", a.as_str(), ",\"min_compatible\":", b.as_str(), "}")
    } else {
        cat4("latest=", a.as_str(), "\nmin_compatible=", b.as_str())
    }
}

/// The name of a version of the schema.
pub open spec fn migration_name(version: int) -> Seq<char> {
    if version == 1 {
        "bootstrap_core_tables"@
    } else if version == 2 {
        "add_late_columns"@
    } else if version == 3 {
        "drop_legacy_tmux_dispatch_columns"@
    } else if version == 4 {
        "add_notification_deliveries_table"@
    } else if version == 5 {
        "ensure_notification_deliveries_table"@
    } else if version == 6 {
        "ensure_trigger_dispatch_dedupe_table"@
    } else if version == 7 {
        "canonicalize_poke_directive_to_reply"@
    } else if version == 8 {
        "add_dispatch_principal_logins"@
    } else if version == 9 {
        "add_timer_schedule_context_tables"@
    } else if version == 10 {
        "add_prune_support_indexes"@
    } else if version == 11 {
        "ensure_timer_schedule_context_tables_compat"@
    } else if version == 12 {
        "add_deploy_jobs_table"@
    } else {
        "ensure_deploy_v2_tables"@
    }
}

/// The name of a version of the schema.
pub fn name_of_migration(version: i64) -> (r: &'static str)
    requires
        1 <= version <= LATEST_SCHEMA_VERSION,
    ensures
        r@ == migration_name(version as int),
{
    if version == 1 {
        "bootstrap_core_tables"
    } else if version == 2 {
        "add_late_columns"
    } else if version == 3 {
        "drop_legacy_tmux_dispatch_columns"
    } else if version == 4 {
        "add_notification_deliveries_table"
    } else if version == 5 {
        "ensure_notification_deliveries_table"
    } else if version == 6 {
        "ensure_trigger_dispatch_dedupe_table"
    } else if version == 7 {
        "canonicalize_poke_directive_to_reply"
    } else if version == 8 {
        "add_dispatch_principal_logins"
    } else if version == 9 {
        "add_timer_schedule_context_tables"
    } else if version == 10 {
        "add_prune_support_indexes"
    } else if version == 11 {
        "ensure_timer_schedule_context_tables_compat"
    } else if version == 12 {
        "add_deploy_jobs_table"
    } else {
        "ensure_deploy_v2_tables"
    }
}

/// The versions up to one that are not brought in, in their order.
pub open spec fn missing(applied: Seq<i64>, up_to: nat) -> Seq<i64>
    decreases up_to,
{
    if up_to == 0 {
        Seq::empty()
    } else {
        let before = missing(applied, (up_to - 1) as nat);
        if applied.contains(up_to as i64) {
            before
        } else {
            before.push(up_to as i64)
        }
    }
}

/// Tells whether a version is among those brought in.
fn has_version(applied: &Vec<i64>, version: i64) -> (r: bool)
    ensures
        r == applied@.contains(version),
{
    let mut i: usize = 0;
    while i < applied.len()
        invariant
            i <= applied@.len(),
            forall|k: int| 0 <= k < i ==> applied@[k] != version,
        decreases applied.len() - i,
    {
        if applied[i] == version {
            return true;
        }
        i = i + 1;
    }
    false
}

/// The versions that are to be brought in, in their order.
pub fn pending_migrations(applied: &Vec<i64>) -> (r: Vec<i64>)
    ensures
        r@ == missing(applied@, LATEST_SCHEMA_VERSION as nat),
{
    let mut out: Vec<i64> = Vec::new();
    let mut v: i64 = 0;
    while v < LATEST_SCHEMA_VERSION
        invariant
            0 <= v <= LATEST_SCHEMA_VERSION,
            out@ == missing(applied@, v as nat),
        decreases LATEST_SCHEMA_VERSION - v,
    {
        v = v + 1;
        if !has_version(applied, v) {
            out.push(v);
        }
    }
    out
}

/// What is said of a version that could not be brought in.
pub fn migration_failure(version: i64) -> (r: String)
    requires
        1 <= version <= LATEST_SCHEMA_VERSION,
    ensures
        r@ == "failed applying migration "@ + decimal_int(version as int) + " ("@ + migration_name(
            version as int,
        ) + ")"@,
{
    let n = i64_text(version);
    cat5("failed applying migration ", n.as_str(), " (", name_of_migration(version), ")")
}

/// The highest of the versions, 0 where there is none.
pub open spec fn highest(applied: Seq<i64>) -> int
    decreases applied.len(),
{
    if applied.len() == 0 {
        0
    } else if applied.len() == 1 {
        applied[0] as int
    } else {
        let before = highest(applied.drop_last());
        if applied.last() > before {
            applied.last() as int
        } else {
            before
        }
    }
}

/// The version of the schema that a store has: the highest that was brought in.
pub fn current_schema_version(applied: &Vec<i64>) -> (r: i64)
    ensures
        r == highest(applied@),
{
    if applied.len() == 0 {
        return 0;
    }
    let mut best: i64 = applied[0];
    let mut i: usize = 1;
    proof {
        assert(applied@.take(1) =~= seq![applied@[0]]);
    }
    while i < applied.len()
        invariant
            1 <= i <= applied@.len(),
            best == highest(applied@.take(i as int)),
        decreases applied.len() - i,
    {
        proof {
            assert(applied@.take(i + 1).drop_last() =~= applied@.take(i as int));
        }
        if applied[i] > best {
            best = applied[i];
        }
        i = i + 1;
    }
    proof {
        assert(applied@.take(i as int) =~= applied@);
    }
    best
}

/// Holds the store to the newest version.
pub fn migrations_verdict(current: i64) -> (r: Result<(), String>)
    ensures
        match r {
            Ok(_) => current == LATEST_SCHEMA_VERSION,
            Err(e) => current != LATEST_SCHEMA_VERSION && e@ == "migration runner ended at version "@
                + decimal_int(current as int) + ", expected "@ + decimal_int(13),
        },
{
    if current == LATEST_SCHEMA_VERSION {
        return Ok(());
    }
    let a = i64_text(current);
    let b = i64_text(LATEST_SCHEMA_VERSION);
    Err(cat4("migration runner ended at version ", a.as_str(), ", expected ", b.as_str()))
}

/// What is missing is what the store lacks, and nothing else.
proof fn lemma_missing(applied: Seq<i64>, up_to: nat, v: i64)
    requires
        up_to <= 13,
    ensures
        missing(applied, up_to).contains(v) <==> 1 <= v <= up_to && !applied.contains(v),
    decreases up_to,
{
    if up_to > 0 {
        lemma_missing(applied, (up_to - 1) as nat, v);
        let before = missing(applied, (up_to - 1) as nat);
        let after = missing(applied, up_to);
        if !applied.contains(up_to as i64) {
            assert(after[before.len() as int] == up_to as i64);
            if before.contains(v) {
                let k = choose|k: int| 0 <= k < before.len() && before[k] == v;
                assert(after[k] == v);
            }
            if after.contains(v) {
                let k = choose|k: int| 0 <= k < after.len() && after[k] == v;
                if k < before.len() {
                    assert(before[k] == v);
                }
            }
        }
    }
}

/// Bringing in what is missing brings in every version, and none that the store has.
pub proof fn law_migrations_are_complete(applied: Seq<i64>, v: i64)
    requires
        1 <= v <= LATEST_SCHEMA_VERSION,
    ensures
        applied.contains(v) <==> !missing(applied, LATEST_SCHEMA_VERSION as nat).contains(v),
{
    lemma_missing(applied, LATEST_SCHEMA_VERSION as nat, v);
}

/// Versions are brought in from the oldest to the newest.
pub proof fn law_migrations_come_in_order(applied: Seq<i64>, up_to: nat, i: int, j: int)
    requires
        up_to <= 13,
        0 <= i < j < missing(applied, up_to).len(),
    ensures
        missing(applied, up_to)[i] < missing(applied, up_to)[j],
    decreases up_to,
{
    if up_to > 0 {
        let before = missing(applied, (up_to - 1) as nat);
        if j < before.len() {
            law_migrations_come_in_order(applied, (up_to - 1) as nat, i, j);
        } else {
            assert(before.contains(before[i]));
            lemma_missing(applied, (up_to - 1) as nat, before[i]);
        }
    }
}

proof fn lemma_highest(applied: Seq<i64>)
    requires
        applied.len() > 0,
    ensures
        forall|i: int| 0 <= i < applied.len() ==> #[trigger] applied[i] <= highest(applied),
        exists|i: int| 0 <= i < applied.len() && #[trigger] applied[i] == highest(applied),
    decreases applied.len(),
{
    if applied.len() == 1 {
        assert(applied[0] == highest(applied));
    } else {
        let front = applied.drop_last();
        lemma_highest(front);
        let n = applied.len() - 1;
        assert forall|i: int| 0 <= i < applied.len() implies #[trigger] applied[i] <= highest(
            applied,
        ) by {
            if i < n {
                assert(applied[i] == front[i]);
            }
        }
        if applied.last() > highest(front) {
            assert(applied[n] == highest(applied));
        } else {
            let k = choose|i: int| 0 <= i < front.len() && #[trigger] front[i] == highest(front);
            assert(applied[k] == highest(applied));
        }
    }
}

/// A store that knows no version beyond the newest has the newest once what is missing was brought in.
pub proof fn law_runs_end_at_the_latest(applied: Seq<i64>)
    requires
        forall|i: int| 0 <= i < applied.len() ==> #[trigger] applied[i] <= LATEST_SCHEMA_VERSION,
    ensures
        highest(applied + missing(applied, LATEST_SCHEMA_VERSION as nat)) == LATEST_SCHEMA_VERSION,
{
    let late = missing(applied, LATEST_SCHEMA_VERSION as nat);
    let all = applied + late;
    let newest = LATEST_SCHEMA_VERSION;
    lemma_missing(applied, LATEST_SCHEMA_VERSION as nat, newest);
    assert(exists|i: int| 0 <= i < all.len() && #[trigger] all[i] == newest) by {
        if applied.contains(newest) {
            let k = choose|k: int| 0 <= k < applied.len() && applied[k] == newest;
            assert(all[k] == newest);
        } else {
            let k = choose|k: int| 0 <= k < late.len() && late[k] == newest;
            assert(all[applied.len() + k] == newest);
        }
    }
    lemma_highest(all);
    let k = choose|i: int| 0 <= i < all.len() && #[trigger] all[i] == highest(all);
    if k < applied.len() {
        assert(all[k] == applied[k]);
    } else {
        assert(all[k] == late[k - applied.len()]);
        lemma_missing(applied, LATEST_SCHEMA_VERSION as nat, all[k]);
    }
}

/// The orchestrator works with a store that it brought up to date.
pub proof fn law_latest_schema_is_compatible()
    ensures
        MIN_COMPAT_SCHEMA_VERSION <= LATEST_SCHEMA_VERSION,
        crate::deploy::schema_fault(
            LATEST_SCHEMA_VERSION,
            LATEST_SCHEMA_VERSION,
            MIN_COMPAT_SCHEMA_VERSION,
        ) is None,
{
}

/// The version of a store is the highest that was brought in.
pub proof fn law_versions_are_the_highest(applied: Seq<i64>, v: i64)
    ensures
        applied.len() == 0 ==> highest(applied) == 0,
        applied.contains(v) && (forall|i: int| 0 <= i < applied.len() ==> #[trigger] applied[i] <= v)
            ==> highest(applied) == v,
{
    if applied.contains(v) {
        lemma_highest(applied);
        let k = choose|k: int| 0 <= k < applied.len() && applied[k] == v;
        assert(applied[k] <= highest(applied));
    }
}

/// Each version has its name.
pub proof fn law_versions_have_their_names()
    ensures
        migration_name(1) == "bootstrap_core_tables"@,
        migration_name(2) == "add_late_columns"@,
        migration_name(3) == "drop_legacy_tmux_dispatch_columns"@,
        migration_name(4) == "add_notification_deliveries_table"@,
        migration_name(5) == "ensure_notification_deliveries_table"@,
        migration_name(6) == "ensure_trigger_dispatch_dedupe_table"@,
        migration_name(7) == "canonicalize_poke_directive_to_reply"@,
        migration_name(8) == "add_dispatch_principal_logins"@,
        migration_name(9) == "add_timer_schedule_context_tables"@,
        migration_name(10) == "add_prune_support_indexes"@,
        migration_name(11) == "ensure_timer_schedule_context_tables_compat"@,
        migration_name(12) == "add_deploy_jobs_table"@,
        migration_name(13) == "ensure_deploy_v2_tables"@,
{
}

} // verus!
