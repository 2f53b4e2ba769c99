//! The persistent store's schema: creation and migration, run idempotently
//! on an SQLite connection.
use vstd::prelude::*;

verus! {

/// `rusqlite::Connection`: the open store, handed to the wrappers below.
#[verifier::external_type_specification]
#[verifier::external_body]
pub struct ExConnection(rusqlite::Connection);

/// `rusqlite::Error`, carried unopened in `InstallLogError::Db`.
#[verifier::external_type_specification]
#[verifier::external_body]
pub struct ExDbError(rusqlite::Error);

/// The schema version this library produces.
pub const CURRENT_VERSION: i64 = 1;

/// The tables and indices of schema version 1. Every statement is guarded
/// with `IF NOT EXISTS`, so the block can run again safely.
pub const DDL_V1: &'static str = "
CREATE TABLE IF NOT EXISTS schema_meta (
    key        TEXT PRIMARY KEY,
    int_value  INTEGER,
    text_value TEXT
);

CREATE TABLE IF NOT EXISTS mods (
    mod_key          TEXT PRIMARY KEY,
    archive_path     TEXT    NOT NULL,
    name             TEXT    NOT NULL,
    version          TEXT    NOT NULL DEFAULT '',
    machine_version  TEXT,
    install_date     TEXT
);

CREATE TABLE IF NOT EXISTS file_owners (
    file_path     TEXT    NOT NULL COLLATE NOCASE,
    mod_key       TEXT    NOT NULL,
    install_order INTEGER NOT NULL,
    PRIMARY KEY (file_path, mod_key),
    FOREIGN KEY (mod_key) REFERENCES mods(mod_key) ON DELETE CASCADE
);

CREATE TABLE IF NOT EXISTS ini_edits (
    ini_file      TEXT    NOT NULL COLLATE NOCASE,
    section       TEXT    NOT NULL COLLATE NOCASE,
    key           TEXT    NOT NULL COLLATE NOCASE,
    mod_key       TEXT    NOT NULL,
    value         TEXT,
    install_order INTEGER NOT NULL,
    PRIMARY KEY (ini_file, section, key, mod_key),
    FOREIGN KEY (mod_key) REFERENCES mods(mod_key) ON DELETE CASCADE
);

CREATE TABLE IF NOT EXISTS gsv_edits (
    gsv_key       TEXT    NOT NULL COLLATE NOCASE,
    mod_key       TEXT    NOT NULL,
    blob_value    BLOB,
    install_order INTEGER NOT NULL,
    PRIMARY KEY (gsv_key, mod_key),
    FOREIGN KEY (mod_key) REFERENCES mods(mod_key) ON DELETE CASCADE
);

CREATE INDEX IF NOT EXISTS idx_file_owners_by_path
    ON file_owners (file_path, install_order DESC);

CREATE INDEX IF NOT EXISTS idx_file_owners_by_mod
    ON file_owners (mod_key);

CREATE INDEX IF NOT EXISTS idx_ini_edits_by_key
    ON ini_edits (ini_file, section, key, install_order DESC);

CREATE INDEX IF NOT EXISTS idx_ini_edits_by_mod
    ON ini_edits (mod_key);

CREATE INDEX IF NOT EXISTS idx_gsv_edits_by_key
    ON gsv_edits (gsv_key, install_order DESC);

CREATE INDEX IF NOT EXISTS idx_gsv_edits_by_mod
    ON gsv_edits (mod_key);
";

/// The seed rows of schema version 1. `INSERT OR IGNORE` keeps the block
/// idempotent: the counter is seeded to 0 on first creation only.
pub const SEED_V1: &'static str = "
INSERT OR IGNORE INTO schema_meta (key, int_value) VALUES ('schema_version', 1);
INSERT OR IGNORE INTO schema_meta (key, int_value) VALUES ('install_order_seq', 0);
";

/// Records version 1 as the stored version, also where an older row
/// exists, which the seed rows leave as they are.
pub const RECORD_V1: &'static str = "
UPDATE schema_meta SET int_value = 1 WHERE key = 'schema_version';
";

/// Counts the meta tables: 0 on a fresh store.
pub const COUNT_META_TABLES: &'static str = "SELECT COUNT(*) FROM sqlite_master WHERE type='table' AND name='schema_meta'";

/// Reads the stored schema version from the meta table.
pub const SELECT_VERSION: &'static str = "SELECT int_value FROM schema_meta WHERE key = 'schema_version'";

/// Errors of the schema manager.
#[derive(Debug)]
pub enum InstallLogError {
    /// An error of the SQLite store.
    Db(rusqlite::Error),
    /// The store's schema version is newer than this library knows how to
    /// handle; migration is not possible.
    UnsupportedSchemaVersion { found: i64, max: i64 },
}

/// Relies on `rusqlite::Connection::query_row`: runs `sql`, which takes no
/// parameters, and reads the first column of its first row as an optional
/// integer; `Ok(None)` where the query returns no row (rusqlite's
/// `QueryReturnedNoRows`) or the column is NULL. Nothing is assumed of the
/// outcome, which depends on the store.
#[verifier::external_body]
fn query_int(conn: &rusqlite::Connection, sql: &str) -> Result<Option<i64>, rusqlite::Error> {
    match conn.query_row(sql, [], |row| row.get::<_, Option<i64>>(0)) {
        Err(rusqlite::Error::QueryReturnedNoRows) => Ok(None),
        other => other,
    }
}

/// Relies on `rusqlite::Connection::execute_batch`: runs the statements of
/// `sql`. Nothing is assumed of the outcome, which depends on the store.
#[verifier::external_body]
fn run_batch(conn: &rusqlite::Connection, sql: &str) -> Result<(), rusqlite::Error> {
    conn.execute_batch(sql)
}

/// The migration steps pending at stored version `stored`: each version
/// above it, and above 0, up to the current one, in ascending order. A
/// negative stored version counts as a fresh store.
pub open spec fn steps_for(stored: i64) -> Seq<i64>
    decreases CURRENT_VERSION - stored,
{
    if stored < 0 {
        steps_for(0)
    } else if stored >= CURRENT_VERSION {
        Seq::empty()
    } else {
        seq![(stored + 1) as i64] + steps_for((stored + 1) as i64)
    }
}

/// The version recorded once the steps pending at `stored` have run: the
/// last step's, or `stored` where none is pending.
pub open spec fn version_reached(stored: i64) -> i64 {
    let steps = steps_for(stored);
    if steps.len() == 0 {
        stored
    } else {
        steps.last()
    }
}

/// The statements of the migration step to version `v`, in order.
pub open spec fn step_sql(v: i64) -> Seq<&'static str> {
    if v == 1 {
        seq![DDL_V1, SEED_V1, RECORD_V1]
    } else {
        Seq::empty()
    }
}

/// The statements of a list of migration steps, step after step.
pub open spec fn plan_of(steps: Seq<i64>) -> Seq<&'static str>
    decreases steps.len(),
{
    if steps.len() == 0 {
        Seq::empty()
    } else {
        plan_of(steps.drop_last()) + step_sql(steps.last())
    }
}

/// How far the reading of the stored version has come.
#[derive(Debug, Clone, Copy, PartialEq, Eq, Structural)]
pub enum VersionStage {
    /// Nothing asked yet.
    Start,
    /// The number of meta tables was asked.
    CountingTables,
    /// The version row of the meta table was asked.
    ReadingRow,
}

/// The next move in reading the stored version.
#[derive(Debug, Clone, Copy)]
pub enum VersionRead {
    /// Run `query` and hand its answer back together with `stage`.
    Ask { query: &'static str, stage: VersionStage },
    /// The stored version.
    Known(i64),
}

/// Reading the stored version: first count the meta tables; where there is
/// none the store is fresh and reads as 0; else read the version row, where
/// a missing row or a NULL value reads as 0.
pub open spec fn read_step(stage: VersionStage, answer: Option<i64>) -> VersionRead {
    match stage {
        VersionStage::Start => VersionRead::Ask {
            query: COUNT_META_TABLES,
            stage: VersionStage::CountingTables,
        },
        VersionStage::CountingTables => if answer is Some && answer->0 != 0 {
            VersionRead::Ask { query: SELECT_VERSION, stage: VersionStage::ReadingRow }
        } else {
            VersionRead::Known(0)
        },
        VersionStage::ReadingRow => VersionRead::Known(
            match answer {
                Some(v) => v,
                None => 0,
            },
        ),
    }
}

/// The rank of a stage, which each question raises.
pub open spec fn stage_rank(stage: VersionStage) -> int {
    match stage {
        VersionStage::Start => 0,
        VersionStage::CountingTables => 1,
        VersionStage::ReadingRow => 2,
    }
}

/// Decides the next move in reading the stored version, from the stage and
/// the answer to the last question (`None` before the first).
pub fn next_version_read(stage: VersionStage, answer: Option<i64>) -> (r: VersionRead)
    ensures
        r == read_step(stage, answer),
{
    match stage {
        VersionStage::Start => VersionRead::Ask {
            query: COUNT_META_TABLES,
            stage: VersionStage::CountingTables,
        },
        VersionStage::CountingTables => match answer {
            Some(c) => if c != 0 {
                VersionRead::Ask { query: SELECT_VERSION, stage: VersionStage::ReadingRow }
            } else {
                VersionRead::Known(0)
            },
            None => VersionRead::Known(0),
        },
        VersionStage::ReadingRow => match answer {
            Some(v) => VersionRead::Known(v),
            None => VersionRead::Known(0),
        },
    }
}

/// The steps to run from stored version `stored`; a version above the
/// current one is refused.
pub fn pending_steps(stored: i64) -> (r: Result<Vec<i64>, InstallLogError>)
    ensures
        stored > CURRENT_VERSION <==> r is Err,
        r matches Err(e) ==> (e matches InstallLogError::UnsupportedSchemaVersion { found, max }
            && found == stored && max == CURRENT_VERSION),
        r matches Ok(v) ==> v@ == steps_for(stored),
{
    if stored > CURRENT_VERSION {
        return Err(InstallLogError::UnsupportedSchemaVersion { found: stored, max: CURRENT_VERSION });
    }
    let mut steps: Vec<i64> = Vec::new();
    let mut v: i64 = if stored < 0 {
        0
    } else {
        stored
    };
    assert(steps@ + steps_for(v) =~= steps_for(stored));
    while v < CURRENT_VERSION
        invariant
            0 <= v <= CURRENT_VERSION,
            steps@ + steps_for(v) == steps_for(stored),
        decreases CURRENT_VERSION - v,
    {
        let ghost before = steps@;
        steps.push(v + 1);
        assert(before + steps_for(v) =~= steps@ + steps_for((v + 1) as i64));
        v = v + 1;
    }
    assert(steps@ + steps_for(v) =~= steps@);
    Ok(steps)
}

/// The statements of the migration step to `version`: its DDL, its seed
/// rows, and the record of its version.
pub fn step_statements(version: i64) -> (r: Option<(&'static str, &'static str, &'static str)>)
    ensures
        version == 1 ==> r == Some((DDL_V1, SEED_V1, RECORD_V1)),
        version != 1 ==> r is None,
{
    if version == 1 {
        Some((DDL_V1, SEED_V1, RECORD_V1))
    } else {
        None
    }
}

/// The statements to run from stored version `stored`, in order: those of
/// each pending step. A version above the current one is refused.
pub fn pending_statements(stored: i64) -> (r: Result<Vec<&'static str>, InstallLogError>)
    ensures
        stored > CURRENT_VERSION <==> r is Err,
        r matches Err(e) ==> (e matches InstallLogError::UnsupportedSchemaVersion { found, max }
            && found == stored && max == CURRENT_VERSION),
        r matches Ok(v) ==> v@ == plan_of(steps_for(stored)),
{
    let steps = pending_steps(stored)?;
    let mut out: Vec<&'static str> = Vec::new();
    let mut i: usize = 0;
    while i < steps.len()
        invariant
            i <= steps.len(),
            out@ == plan_of(steps@.take(i as int)),
        decreases steps.len() - i,
    {
        assert(steps@.take(i + 1).drop_last() =~= steps@.take(i as int));
        let ghost before = out@;
        match step_statements(steps[i]) {
            Some((ddl, seed, record)) => {
                out.push(ddl);
                out.push(seed);
                out.push(record);
            },
            None => {},
        }
        assert(out@ =~= before + step_sql(steps@[i as int]));
        i = i + 1;
    }
    assert(steps@.take(steps.len() as int) =~= steps@);
    Ok(out)
}

/// Reads the stored schema version, asking the store what
/// `next_version_read` decides; errors of the store are returned.
fn read_version(conn: &rusqlite::Connection) -> (r: Result<i64, InstallLogError>)
    ensures
        r matches Err(e) ==> e is Db,
{
    let mut stage = VersionStage::Start;
    let mut answer: Option<i64> = None;
    loop
        invariant
            0 <= stage_rank(stage) <= 2,
        decreases 3 - stage_rank(stage),
    {
        match next_version_read(stage, answer) {
            VersionRead::Known(v) => {
                return Ok(v);
            },
            VersionRead::Ask { query, stage: next } => {
                match query_int(conn, query) {
                    Ok(a) => {
                        answer = a;
                    },
                    Err(e) => {
                        return Err(InstallLogError::Db(e));
                    },
                }
                stage = next;
            },
        }
    }
}

/// Applies the schema to `conn`, creating tables and indices as needed:
/// reads the stored version and runs `pending_statements` for it, in order.
///
/// Idempotent: at the current version it runs nothing; below it, it runs
/// each pending step, each safe to run again; above it, it fails with
/// `UnsupportedSchemaVersion` and leaves the store as it was. Errors of the
/// store are returned as `Db`. Foreign keys are enforced only where the
/// caller has enabled them on the connection.
pub fn apply(conn: &rusqlite::Connection) -> (r: Result<(), InstallLogError>)
    ensures
        r matches Err(InstallLogError::UnsupportedSchemaVersion { found, max }) ==> found
            > CURRENT_VERSION && max == CURRENT_VERSION,
{
    let stored = read_version(conn)?;
    let statements = pending_statements(stored)?;
    let mut i: usize = 0;
    while i < statements.len()
        invariant
            i <= statements.len(),
        decreases statements.len() - i,
    {
        if let Err(e) = run_batch(conn, statements[i]) {
            return Err(InstallLogError::Db(e));
        }
        i = i + 1;
    }
    Ok(())
}

/// The statements a store below the current version gets, and those a
/// current one gets: the tables and indices of version 1, its seed rows and
/// the record of version 1; nothing.
pub proof fn lemma_plan(stored: i64)
    requires
        stored <= CURRENT_VERSION,
    ensures
        stored < CURRENT_VERSION ==> plan_of(steps_for(stored)) == seq![DDL_V1, SEED_V1, RECORD_V1],
        stored == CURRENT_VERSION ==> plan_of(steps_for(stored)).len() == 0,
{
    if stored < CURRENT_VERSION {
        assert(steps_for(1).len() == 0);
        assert(steps_for(0) =~= seq![1i64]);
        assert(steps_for(stored) =~= seq![1i64]);
        assert(seq![1i64].drop_last() =~= Seq::<i64>::empty());
        assert(plan_of(seq![1i64].drop_last()) == Seq::<&'static str>::empty());
        assert(plan_of(seq![1i64]) =~= seq![DDL_V1, SEED_V1, RECORD_V1]);
    }
}

/// Running the schema twice does what running it once does: from any
/// supported stored version the pending steps end at the current version,
/// and at the current version no step is pending. The steps go up one by
/// one from the stored version, so the version never decreases.
pub proof fn lemma_apply_idempotent(stored: i64)
    requires
        stored <= CURRENT_VERSION,
    ensures
        version_reached(stored) == CURRENT_VERSION,
        steps_for(version_reached(stored)).len() == 0,
        forall|i: int| 0 <= i < steps_for(stored).len() ==> steps_for(stored)[i] > stored,
        forall|i: int, j: int|
            0 <= i < j < steps_for(stored).len() ==> steps_for(stored)[i] < steps_for(stored)[j],
    decreases CURRENT_VERSION - stored,
{
    lemma_steps_above(stored);
    if stored < 0 {
        lemma_apply_idempotent(0);
    } else if stored < CURRENT_VERSION {
        lemma_apply_idempotent((stored + 1) as i64);
        let rest = steps_for((stored + 1) as i64);
        assert(steps_for(stored) == seq![(stored + 1) as i64] + rest);
        if rest.len() > 0 {
            assert(steps_for(stored).last() == rest.last());
        }
        lemma_steps_above(((stored + 1) as i64));
        assert forall|i: int, j: int|
            0 <= i < j < steps_for(stored).len() implies steps_for(stored)[i] < steps_for(stored)[j] by {
            if i == 0 {
                assert(steps_for(stored)[j] == rest[j - 1]);
            } else {
                assert(steps_for(stored)[i] == rest[i - 1]);
                assert(steps_for(stored)[j] == rest[j - 1]);
            }
        }
    }
}

proof fn lemma_steps_above(stored: i64)
    ensures
        forall|i: int| 0 <= i < steps_for(stored).len() ==> steps_for(stored)[i] > stored,
    decreases CURRENT_VERSION - stored,
{
    if stored < 0 {
        lemma_steps_above(0);
        assert(steps_for(stored) == steps_for(0));
    } else if stored < CURRENT_VERSION {
        lemma_steps_above((stored + 1) as i64);
        let rest = steps_for((stored + 1) as i64);
        assert forall|i: int| 0 <= i < steps_for(stored).len() implies steps_for(stored)[i] > stored by {
            if i > 0 {
                assert(steps_for(stored)[i] == rest[i - 1]);
            }
        }
    }
}

} // verus!
