//! The schema and its upgrades.
//!
//! The storage keeps one integer, the version of its schema. Version `0` is
//! an empty storage; each upgrade step takes the schema from one version to
//! the next, and the engine applies the pending steps in order until the
//! version has no step left.

use crate::error::StoreError;
use crate::sqlite::{describe, query, run_batch, Record};
use crate::statements::version_request;
use vstd::prelude::*;
use vstd::string::StringExecFns;

verus! {

/// The version of the schema that the store works on.
pub const LATEST_VERSION: i64 = 4;

/// One upgrade: the statements that take the schema from `from` to `to`.
/// They run as one transaction, which ends by writing `to` as the version.
#[derive(Debug, Clone, Copy, PartialEq, Eq)]
pub struct MigrationStep {
    pub from: i64,
    pub to: i64,
    pub label: &'static str,
    pub sql: &'static str,
}

/// From version 0 to 1: the tables for categories and memos, and the
/// indices on their positions.
pub const STEP_0_TO_1: &'static str = "BEGIN;
        CREATE TABLE IF NOT EXISTS categories (
          id TEXT PRIMARY KEY,
          title TEXT NOT NULL,
          color TEXT NOT NULL,
          position INTEGER NOT NULL,
          is_collapsed INTEGER NOT NULL DEFAULT 0,
          created_at INTEGER NOT NULL,
          updated_at INTEGER NOT NULL
        );
        CREATE TABLE IF NOT EXISTS memos (
          id TEXT PRIMARY KEY,
          category_id TEXT NOT NULL,
          title TEXT NOT NULL,
          color TEXT NOT NULL,
          content_md TEXT NOT NULL,
          position INTEGER NOT NULL,
          created_at INTEGER NOT NULL,
          updated_at INTEGER NOT NULL,
          FOREIGN KEY(category_id) REFERENCES categories(id) ON DELETE CASCADE
        );
        CREATE INDEX IF NOT EXISTS idx_categories_position ON categories(position);
        CREATE INDEX IF NOT EXISTS idx_memos_category_position
          ON memos(category_id, position);
        PRAGMA user_version = 1;
        COMMIT;";

/// From version 1 to 2: the date of a memo; a memo that has none gets the
/// local date of its creation.
pub const STEP_1_TO_2: &'static str = "BEGIN;
        ALTER TABLE memos ADD COLUMN date_ymd TEXT NOT NULL DEFAULT '';
        UPDATE memos
        SET date_ymd = strftime('%Y-%m-%d', created_at/1000, 'unixepoch', 'localtime')
        WHERE date_ymd = '';
        PRAGMA user_version = 2;
        COMMIT;";

/// From version 2 to 3: the emoji of a category, and the table of settings.
pub const STEP_2_TO_3: &'static str = "BEGIN;
        ALTER TABLE categories ADD COLUMN emoji TEXT NOT NULL DEFAULT '';
        CREATE TABLE IF NOT EXISTS settings (
          key TEXT PRIMARY KEY,
          value TEXT NOT NULL
        );
        PRAGMA user_version = 3;
        COMMIT;";

/// From version 3 to 4: the emoji of a memo, the archived and to-do flags
/// of a category, and the done flag of a memo.
pub const STEP_3_TO_4: &'static str = "BEGIN;
        ALTER TABLE memos ADD COLUMN emoji TEXT NOT NULL DEFAULT '';
        ALTER TABLE categories ADD COLUMN archived INTEGER NOT NULL DEFAULT 0;
        ALTER TABLE categories ADD COLUMN is_todo INTEGER NOT NULL DEFAULT 0;
        ALTER TABLE memos ADD COLUMN todo_done INTEGER NOT NULL DEFAULT 0;
        PRAGMA user_version = 4;
        COMMIT;";

/// Undoes what the statements of a step did before one of them was refused.
pub const ROLLBACK: &'static str = "ROLLBACK;";

/// Whether a step is registered for `version`.
pub open spec fn has_step(version: int) -> bool {
    0 <= version < LATEST_VERSION
}

/// The name of the step registered for `version`, as a failure of the step
/// reports it.
pub open spec fn step_label(version: int) -> Seq<char> {
    if version == 0 {
        "migration v0->v1"@
    } else if version == 1 {
        "migration v1->v2"@
    } else if version == 2 {
        "migration v2->v3"@
    } else {
        "migration v3->v4"@
    }
}

/// The statements of the step registered for `version`.
pub open spec fn step_sql(version: int) -> Seq<char> {
    if version == 0 {
        STEP_0_TO_1@
    } else if version == 1 {
        STEP_1_TO_2@
    } else if version == 2 {
        STEP_2_TO_3@
    } else {
        STEP_3_TO_4@
    }
}

/// The failures of a run of the engine: the version could not be read, or
/// one of the registered steps did not go through.
pub open spec fn is_run_failure(e: StoreError) -> bool {
    e.is_migration_failure_of("read user_version"@) || exists|version: int|
        has_step(version) && #[trigger] e.is_migration_failure_of(step_label(version))
}

/// The version that one turn of the engine leads to.
pub open spec fn version_after_step(version: int) -> int {
    if has_step(version) {
        version + 1
    } else {
        version
    }
}

/// The number of steps between `version` and the version at which the
/// engine stops.
pub open spec fn pending_steps(version: int) -> nat {
    if has_step(version) {
        (LATEST_VERSION - version) as nat
    } else {
        0
    }
}

/// The version at which the engine stops when it starts from `version`.
pub open spec fn version_after_run(version: int) -> int
    decreases pending_steps(version),
{
    if has_step(version) {
        version_after_run(version + 1)
    } else {
        version
    }
}

/// A run from a version with pending steps ends at the latest version; a run
/// from any other version ends where it started.
pub proof fn lemma_run_reaches_latest(version: int)
    ensures
        has_step(version) ==> version_after_run(version) == LATEST_VERSION,
        !has_step(version) ==> version_after_run(version) == version,
    decreases pending_steps(version),
{
    if has_step(version) {
        lemma_run_reaches_latest(version + 1);
    }
}

/// Running the engine a second time changes nothing: the version at which a
/// run stops has no step, so a run from it stops at once.
pub proof fn lemma_second_run_is_idle(version: int)
    ensures
        !has_step(version_after_run(version)),
        pending_steps(version_after_run(version)) == 0,
        version_after_run(version_after_run(version)) == version_after_run(version),
{
    lemma_run_reaches_latest(version);
    lemma_run_reaches_latest(version_after_run(version));
}

/// A run from an empty storage passes through every version once, in
/// order, and ends at the latest.
pub proof fn lemma_fresh_run(version: int)
    requires
        0 <= version <= LATEST_VERSION,
    ensures
        version_after_run(0) == LATEST_VERSION,
        version_after_run(version) == LATEST_VERSION,
        pending_steps(version) == LATEST_VERSION - version,
        has_step(version) ==> pending_steps(version_after_step(version)) + 1 == pending_steps(
            version,
        ),
{
    lemma_run_reaches_latest(0);
    lemma_run_reaches_latest(version);
}

/// The step registered for `version`: the one that leads to `version + 1`,
/// for every version from `0` up to the latest, and none for any other.
pub fn step_for(version: i64) -> (r: Option<MigrationStep>)
    ensures
        r.is_some() <==> has_step(version as int),
        r matches Some(step) ==> step.from == version && step.to == version + 1 && step.label@
            == step_label(version as int) && step.sql@ == step_sql(version as int),
{
    if version == 0 {
        Some(
            MigrationStep {
                from: 0,
                to: 1,
                label: "migration v0->v1",
                sql: STEP_0_TO_1,
            },
        )
    } else if version == 1 {
        Some(
            MigrationStep {
                from: 1,
                to: 2,
                label: "migration v1->v2",
                sql: STEP_1_TO_2,
            },
        )
    } else if version == 2 {
        Some(
            MigrationStep {
                from: 2,
                to: 3,
                label: "migration v2->v3",
                sql: STEP_2_TO_3,
            },
        )
    } else if version == 3 {
        Some(
            MigrationStep {
                from: 3,
                to: 4,
                label: "migration v3->v4",
                sql: STEP_3_TO_4,
            },
        )
    } else {
        None
    }
}

/// The failures of a run of the engine that starts at `version`: the
/// version could not be read, or a step registered for `version` or a later
/// version did not go through.
pub open spec fn is_run_failure_from(e: StoreError, version: int) -> bool {
    e.is_migration_failure_of("read user_version"@) || exists|k: int|
        version <= k && has_step(k) && #[trigger] e.is_migration_failure_of(step_label(k))
}

/// The integer of the first row, where the rows of a query for one integer
/// have one.
pub fn first_integer(rows: &Vec<Record>) -> (r: Option<i64>)
    ensures
        r == if rows@.len() > 0 && rows@[0].integers@.len() > 0 {
            Some(rows@[0].integers@[0])
        } else {
            None
        },
{
    if rows.len() > 0 && rows[0].integers.len() > 0 {
        Some(rows[0].integers[0])
    } else {
        None
    }
}

/// The error of a step, or of reading the version, that did not go through.
pub fn migration_failure(step: &str, detail: String) -> (r: StoreError)
    ensures
        r matches StoreError::Migration { step: s, detail: d } && s@ == step@ && d == detail,
{
    StoreError::Migration { step: String::from_str(step), detail }
}

/// The version that a read of it gave: the integer of the first row, or the
/// failure of the read where the rows hold none.
pub fn version_read(rows: &Vec<Record>) -> (r: Result<i64, StoreError>)
    ensures
        rows@.len() > 0 && rows@[0].integers@.len() > 0 ==> r == Ok::<i64, StoreError>(
            rows@[0].integers@[0],
        ),
        !(rows@.len() > 0 && rows@[0].integers@.len() > 0) ==> (r matches Err(e)
            && e.is_migration_failure("read user_version"@, "no version was read"@)),
{
    match first_integer(rows) {
        Some(version) => Ok(version),
        None => Err(
            migration_failure("read user_version", String::from_str("no version was read")),
        ),
    }
}

/// What the engine makes of the statements of `step` having run: it goes
/// on where the storage took them, and fails with the step's name and what
/// the storage said where it refused them.
pub fn after_batch(step: MigrationStep, refused: Option<String>) -> (r: Result<(), StoreError>)
    ensures
        refused.is_none() ==> r == Ok::<(), StoreError>(()),
        refused matches Some(detail) ==> (r matches Err(e) && e.is_migration_failure(
            step.label@,
            detail@,
        )),
{
    match refused {
        None => Ok(()),
        Some(detail) => Err(migration_failure(step.label, detail)),
    }
}

/// What the engine makes of the version `reached` that the storage holds
/// after `step`: the version, where it is the one the step leads to; the
/// failure of the step, where it is any other.
pub fn after_step(step: MigrationStep, reached: i64) -> (r: Result<i64, StoreError>)
    ensures
        reached == step.to ==> r == Ok::<i64, StoreError>(reached),
        reached != step.to ==> (r matches Err(e) && e.is_migration_failure(
            step.label@,
            "the version did not advance"@,
        )),
{
    if reached == step.to {
        Ok(reached)
    } else {
        Err(migration_failure(step.label, String::from_str("the version did not advance")))
    }
}

/// Runs the statements of a step. Where the storage refuses one of them,
/// what the earlier ones did is rolled back, and the result is what the
/// storage said of the one it refused.
fn run_step(conn: &rusqlite::Connection, step: MigrationStep) -> (r: Option<String>) {
    match run_batch(conn, step.sql) {
        Ok(()) => None,
        Err(e) => {
            let refused = describe(&e);
            let _ = run_batch(conn, ROLLBACK);
            Some(refused)
        },
    }
}

/// Reads the version that the storage holds.
pub fn read_version(conn: &rusqlite::Connection) -> (r: Result<i64, StoreError>)
    ensures
        r matches Err(e) ==> e.is_migration_failure_of("read user_version"@),
{
    let request = version_request();
    match query(conn, request.sql.as_str(), &request.args, 0, 1) {
        Ok(rows) => version_read(&rows),
        Err(e) => Err(migration_failure("read user_version", describe(&e))),
    }
}

/// Applies the steps that are pending at `version`, in order, each followed
/// by a check that the storage now holds the version the step leads to.
///
/// Where no step is pending the storage is not touched and the result is
/// `version`. Else the result is the latest version, or the failure of the
/// first step that did not go through; no step after that one is run.
pub fn advance(conn: &rusqlite::Connection, version: i64) -> (r: Result<i64, StoreError>)
    ensures
        !has_step(version as int) ==> r == Ok::<i64, StoreError>(version),
        r matches Ok(reached) ==> reached == version_after_run(version as int),
        r matches Err(e) ==> has_step(version as int) && is_run_failure_from(e, version as int),
{
    let mut current = version;
    loop
        invariant
            version_after_run(current as int) == version_after_run(version as int),
            !has_step(version as int) ==> current == version,
            version <= current,
        decreases pending_steps(current as int),
    {
        match step_for(current) {
            None => {
                return Ok(current);
            },
            Some(step) => {
                proof {
                    assert(has_step(current as int) && step.label@ == step_label(current as int));
                }
                match after_batch(step, run_step(conn, step)) {
                    Ok(()) => {},
                    Err(e) => {
                        assert(e.is_migration_failure_of(step_label(current as int)));
                        return Err(e);
                    },
                }
                let reached = read_version(conn)?;
                match after_step(step, reached) {
                    Ok(next) => {
                        current = next;
                    },
                    Err(e) => {
                        assert(e.is_migration_failure_of(step_label(current as int)));
                        return Err(e);
                    },
                }
            },
        }
    }
}

/// Brings the schema of the storage to the latest version.
///
/// Reads the version and applies the pending steps. A failure is final: the
/// storage must not be used after it.
pub fn migrate(conn: &rusqlite::Connection) -> (r: Result<(), StoreError>)
    ensures
        r matches Err(e) ==> is_run_failure(e),
{
    let version = read_version(conn)?;
    match advance(conn, version) {
        Ok(_) => Ok(()),
        Err(e) => Err(e),
    }
}

} // verus!
