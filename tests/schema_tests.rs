use nmm_core::schema::{
    next_version_read, pending_statements, pending_steps, InstallLogError, VersionRead, VersionStage,
    COUNT_META_TABLES, DDL_V1, RECORD_V1, SEED_V1, SELECT_VERSION,
};
use rusqlite::Connection;

/// Open a fresh in-memory DB with foreign keys enabled and apply the schema.
fn open_db() -> Connection {
    let conn = Connection::open_in_memory().expect("open_in_memory failed");
    conn.execute_batch("PRAGMA foreign_keys = ON;")
        .expect("PRAGMA foreign_keys failed");
    nmm_core::schema::apply(&conn).expect("schema::apply failed");
    conn
}


#[test]
fn schema_applies_on_fresh_db() {
    let _conn = open_db();
}


#[test]
fn schema_apply_is_idempotent() {
    let conn = open_db();
    nmm_core::schema::apply(&conn).expect("second apply failed");
}


#[test]
fn all_tables_exist() {
    let conn = open_db();
    let tables = [
        "schema_meta",
        "mods",
        "file_owners",
        "ini_edits",
        "gsv_edits",
    ];
    for table in &tables {
        let count: i64 = conn
            .query_row(
                "SELECT COUNT(*) FROM sqlite_master WHERE type='table' AND name=?1",
                [table],
                |row| row.get(0),
            )
            .unwrap_or(0);
        assert_eq!(count, 1, "table '{}' must exist", table);
    }
}


#[test]
fn all_indices_exist() {
    let conn = open_db();
    let indices = [
        "idx_file_owners_by_path",
        "idx_file_owners_by_mod",
        "idx_ini_edits_by_key",
        "idx_ini_edits_by_mod",
        "idx_gsv_edits_by_key",
        "idx_gsv_edits_by_mod",
    ];
    for idx in &indices {
        let count: i64 = conn
            .query_row(
                "SELECT COUNT(*) FROM sqlite_master WHERE type='index' AND name=?1",
                [idx],
                |row| row.get(0),
            )
            .unwrap_or(0);
        assert_eq!(count, 1, "index '{}' must exist", idx);
    }
}


#[test]
fn schema_version_row_exists() {
    let conn = open_db();
    let version: i64 = conn
        .query_row(
            "SELECT int_value FROM schema_meta WHERE key = 'schema_version'",
            [],
            |row| row.get(0),
        )
        .expect("schema_version row must exist");
    assert_eq!(version, nmm_core::schema::CURRENT_VERSION);
}


#[test]
fn install_order_seq_initialized() {
    let conn = open_db();
    let seq: i64 = conn
        .query_row(
            "SELECT int_value FROM schema_meta WHERE key = 'install_order_seq'",
            [],
            |row| row.get(0),
        )
        .expect("install_order_seq row must exist");
    assert_eq!(seq, 0);
}


#[test]
fn mods_pk_uniqueness() {
    let conn = open_db();
    conn.execute(
        "INSERT INTO mods (mod_key, archive_path, name) VALUES ('abc123', 'mods/test.7z', 'Test Mod')",
        [],
    )
    .expect("first insert must succeed");

    let result = conn.execute(
        "INSERT INTO mods (mod_key, archive_path, name) VALUES ('abc123', 'mods/other.7z', 'Other Mod')",
        [],
    );
    assert!(result.is_err(), "duplicate mod_key must be rejected");
}


#[test]
fn file_owners_pk_uniqueness() {
    let conn = open_db();
    conn.execute(
        "INSERT INTO mods (mod_key, archive_path, name) VALUES ('mod1', 'a.7z', 'A')",
        [],
    )
    .unwrap();
    conn.execute(
        "INSERT INTO file_owners (file_path, mod_key, install_order) VALUES ('Data/test.dds', 'mod1', 1)",
        [],
    )
    .expect("first insert must succeed");

    let result = conn.execute(
        "INSERT INTO file_owners (file_path, mod_key, install_order) VALUES ('Data/test.dds', 'mod1', 2)",
        [],
    );
    assert!(
        result.is_err(),
        "duplicate (file_path, mod_key) must be rejected"
    );
}


#[test]
fn ini_edits_pk_uniqueness() {
    let conn = open_db();
    conn.execute(
        "INSERT INTO mods (mod_key, archive_path, name) VALUES ('mod1', 'a.7z', 'A')",
        [],
    )
    .unwrap();
    conn.execute(
        "INSERT INTO ini_edits (ini_file, section, key, mod_key, value, install_order) \
         VALUES ('skyrim.ini', 'Display', 'fShadowDistance', 'mod1', '1500', 1)",
        [],
    )
    .expect("first insert must succeed");

    let result = conn.execute(
        "INSERT INTO ini_edits (ini_file, section, key, mod_key, value, install_order) \
         VALUES ('skyrim.ini', 'Display', 'fShadowDistance', 'mod1', '2000', 2)",
        [],
    );
    assert!(
        result.is_err(),
        "duplicate (ini_file, section, key, mod_key) must be rejected"
    );
}


#[test]
fn gsv_edits_pk_uniqueness() {
    let conn = open_db();
    conn.execute(
        "INSERT INTO mods (mod_key, archive_path, name) VALUES ('mod1', 'a.7z', 'A')",
        [],
    )
    .unwrap();
    conn.execute(
        "INSERT INTO gsv_edits (gsv_key, mod_key, blob_value, install_order) \
         VALUES ('some_key', 'mod1', X'DEADBEEF', 1)",
        [],
    )
    .expect("first insert must succeed");

    let result = conn.execute(
        "INSERT INTO gsv_edits (gsv_key, mod_key, blob_value, install_order) \
         VALUES ('some_key', 'mod1', X'CAFEBABE', 2)",
        [],
    );
    assert!(
        result.is_err(),
        "duplicate (gsv_key, mod_key) must be rejected"
    );
}


#[test]
fn file_owners_fk_rejects_unknown_mod() {
    let conn = open_db();
    let result = conn.execute(
        "INSERT INTO file_owners (file_path, mod_key, install_order) \
         VALUES ('Data/test.dds', 'nonexistent', 1)",
        [],
    );
    assert!(
        result.is_err(),
        "file_owners must reject mod_key not present in mods"
    );
}


#[test]
fn ini_edits_fk_rejects_unknown_mod() {
    let conn = open_db();
    let result = conn.execute(
        "INSERT INTO ini_edits (ini_file, section, key, mod_key, value, install_order) \
         VALUES ('skyrim.ini', 'Display', 'fVal', 'ghost', '1', 1)",
        [],
    );
    assert!(
        result.is_err(),
        "ini_edits must reject mod_key not present in mods"
    );
}


#[test]
fn gsv_edits_fk_rejects_unknown_mod() {
    let conn = open_db();
    let result = conn.execute(
        "INSERT INTO gsv_edits (gsv_key, mod_key, blob_value, install_order) \
         VALUES ('k', 'ghost', NULL, 1)",
        [],
    );
    assert!(
        result.is_err(),
        "gsv_edits must reject mod_key not present in mods"
    );
}


#[test]
fn cascade_delete_file_owners() {
    let conn = open_db();
    conn.execute(
        "INSERT INTO mods (mod_key, archive_path, name) VALUES ('mod1', 'a.7z', 'A')",
        [],
    )
    .unwrap();
    conn.execute(
        "INSERT INTO file_owners (file_path, mod_key, install_order) \
         VALUES ('Data/t.dds', 'mod1', 1)",
        [],
    )
    .unwrap();

    conn.execute("DELETE FROM mods WHERE mod_key = 'mod1'", [])
        .unwrap();

    let count: i64 = conn
        .query_row(
            "SELECT COUNT(*) FROM file_owners WHERE mod_key = 'mod1'",
            [],
            |row| row.get(0),
        )
        .unwrap();
    assert_eq!(count, 0, "CASCADE must have deleted file_owners rows");
}


#[test]
fn cascade_delete_ini_edits() {
    let conn = open_db();
    conn.execute(
        "INSERT INTO mods (mod_key, archive_path, name) VALUES ('mod1', 'a.7z', 'A')",
        [],
    )
    .unwrap();
    conn.execute(
        "INSERT INTO ini_edits (ini_file, section, key, mod_key, value, install_order) \
         VALUES ('s.ini', 'S', 'K', 'mod1', 'V', 1)",
        [],
    )
    .unwrap();

    conn.execute("DELETE FROM mods WHERE mod_key = 'mod1'", [])
        .unwrap();

    let count: i64 = conn
        .query_row(
            "SELECT COUNT(*) FROM ini_edits WHERE mod_key = 'mod1'",
            [],
            |row| row.get(0),
        )
        .unwrap();
    assert_eq!(count, 0, "CASCADE must have deleted ini_edits rows");
}


#[test]
fn cascade_delete_gsv_edits() {
    let conn = open_db();
    conn.execute(
        "INSERT INTO mods (mod_key, archive_path, name) VALUES ('mod1', 'a.7z', 'A')",
        [],
    )
    .unwrap();
    conn.execute(
        "INSERT INTO gsv_edits (gsv_key, mod_key, blob_value, install_order) \
         VALUES ('k', 'mod1', X'FF', 1)",
        [],
    )
    .unwrap();

    conn.execute("DELETE FROM mods WHERE mod_key = 'mod1'", [])
        .unwrap();

    let count: i64 = conn
        .query_row(
            "SELECT COUNT(*) FROM gsv_edits WHERE mod_key = 'mod1'",
            [],
            |row| row.get(0),
        )
        .unwrap();
    assert_eq!(count, 0, "CASCADE must have deleted gsv_edits rows");
}


#[test]
fn file_path_collate_nocase() {
    let conn = open_db();
    conn.execute(
        "INSERT INTO mods (mod_key, archive_path, name) VALUES ('mod1', 'a.7z', 'A')",
        [],
    )
    .unwrap();
    conn.execute(
        "INSERT INTO file_owners (file_path, mod_key, install_order) \
         VALUES ('Data/Textures/Test.DDS', 'mod1', 1)",
        [],
    )
    .expect("insert must succeed");

    // Query with different case — must find the row.
    let count: i64 = conn
        .query_row(
            "SELECT COUNT(*) FROM file_owners WHERE file_path = 'data/textures/test.dds'",
            [],
            |row| row.get(0),
        )
        .unwrap();
    assert_eq!(count, 1, "COLLATE NOCASE must match case-insensitively");

    // Same path different case + same mod_key must be rejected by PK.
    let result = conn.execute(
        "INSERT INTO file_owners (file_path, mod_key, install_order) \
         VALUES ('DATA/TEXTURES/TEST.DDS', 'mod1', 2)",
        [],
    );
    assert!(
        result.is_err(),
        "COLLATE NOCASE must treat case-variant paths as duplicates in PK"
    );
}


#[test]
fn ini_edits_collate_nocase() {
    let conn = open_db();
    conn.execute(
        "INSERT INTO mods (mod_key, archive_path, name) VALUES ('mod1', 'a.7z', 'A')",
        [],
    )
    .unwrap();
    conn.execute(
        "INSERT INTO ini_edits (ini_file, section, key, mod_key, value, install_order) \
         VALUES ('Skyrim.ini', 'Display', 'fShadowDist', 'mod1', '1500', 1)",
        [],
    )
    .expect("insert must succeed");

    // Query with all-lowercase — must match.
    let count: i64 = conn
        .query_row(
            "SELECT COUNT(*) FROM ini_edits \
             WHERE ini_file = 'skyrim.ini' AND section = 'display' AND key = 'fshadowdist'",
            [],
            |row| row.get(0),
        )
        .unwrap();
    assert_eq!(
        count, 1,
        "ini_edits COLLATE NOCASE must match case-insensitively"
    );
}


#[test]
fn apply_rejects_future_schema_version() {
    let conn = Connection::open_in_memory().unwrap();
    conn.execute_batch("PRAGMA foreign_keys = ON;").unwrap();

    // Manually seed schema_meta with a future version.
    conn.execute_batch(
        "CREATE TABLE schema_meta (key TEXT PRIMARY KEY, int_value INTEGER, text_value TEXT);",
    )
    .unwrap();
    conn.execute(
        "INSERT INTO schema_meta (key, int_value) VALUES ('schema_version', 9999)",
        [],
    )
    .unwrap();

    let result = nmm_core::schema::apply(&conn);
    assert!(result.is_err(), "apply must reject a future schema version");

    match result.unwrap_err() {
        nmm_core::schema::InstallLogError::UnsupportedSchemaVersion { found, max } => {
            assert_eq!(found, 9999);
            assert_eq!(max, nmm_core::schema::CURRENT_VERSION);
        }
        other => panic!("expected UnsupportedSchemaVersion, got: {:?}", other),
    }
}


#[test]
fn multiple_mods_can_own_same_file() {
    let conn = open_db();
    conn.execute(
        "INSERT INTO mods (mod_key, archive_path, name) VALUES ('mod1', 'a.7z', 'A')",
        [],
    )
    .unwrap();
    conn.execute(
        "INSERT INTO mods (mod_key, archive_path, name) VALUES ('mod2', 'b.7z', 'B')",
        [],
    )
    .unwrap();
    conn.execute(
        "INSERT INTO file_owners (file_path, mod_key, install_order) \
         VALUES ('Data/test.dds', 'mod1', 1)",
        [],
    )
    .unwrap();
    conn.execute(
        "INSERT INTO file_owners (file_path, mod_key, install_order) \
         VALUES ('Data/test.dds', 'mod2', 2)",
        [],
    )
    .unwrap();

    // Current owner = highest install_order.
    let owner: String = conn
        .query_row(
            "SELECT mod_key FROM file_owners WHERE file_path = 'Data/test.dds' \
             ORDER BY install_order DESC LIMIT 1",
            [],
            |row| row.get(0),
        )
        .unwrap();
    assert_eq!(owner, "mod2", "mod2 installed last so it is current owner");

    // Previous owner = second-highest install_order.
    let prev: String = conn
        .query_row(
            "SELECT mod_key FROM file_owners WHERE file_path = 'Data/test.dds' \
             ORDER BY install_order DESC LIMIT 1 OFFSET 1",
            [],
            |row| row.get(0),
        )
        .unwrap();
    assert_eq!(prev, "mod1", "mod1 installed first so it is previous owner");
}

#[test]
fn apply_on_older_store_migrates_and_keeps_rows() {
    let conn = Connection::open_in_memory().unwrap();
    conn.execute_batch(
        "CREATE TABLE schema_meta (key TEXT PRIMARY KEY, int_value INTEGER, text_value TEXT);",
    )
    .unwrap();
    conn.execute(
        "INSERT INTO schema_meta (key, int_value) VALUES ('install_order_seq', 7)",
        [],
    )
    .unwrap();
    nmm_core::schema::apply(&conn).expect("migration from version 0 must succeed");
    let version: i64 = conn
        .query_row(
            "SELECT int_value FROM schema_meta WHERE key = 'schema_version'",
            [],
            |row| row.get(0),
        )
        .unwrap();
    assert_eq!(version, nmm_core::schema::CURRENT_VERSION);
    let seq: i64 = conn
        .query_row(
            "SELECT int_value FROM schema_meta WHERE key = 'install_order_seq'",
            [],
            |row| row.get(0),
        )
        .unwrap();
    assert_eq!(seq, 7, "an existing counter must not be reseeded");
}

#[test]
fn pending_steps_by_stored_version() {
    assert_eq!(pending_steps(0).unwrap(), vec![1]);
    assert_eq!(pending_steps(-2).unwrap(), vec![1]);
    assert!(pending_steps(1).unwrap().is_empty());
    match pending_steps(2) {
        Err(InstallLogError::UnsupportedSchemaVersion { found, max }) => {
            assert_eq!(found, 2);
            assert_eq!(max, 1);
        }
        other => panic!("expected UnsupportedSchemaVersion, got: {:?}", other),
    }
}

#[test]
fn version_reading_decisions() {
    match next_version_read(VersionStage::Start, None) {
        VersionRead::Ask { query, stage } => {
            assert_eq!(query, COUNT_META_TABLES);
            assert_eq!(stage, VersionStage::CountingTables);
        }
        other => panic!("expected a question, got {:?}", other),
    }
    assert!(matches!(
        next_version_read(VersionStage::CountingTables, Some(0)),
        VersionRead::Known(0)
    ));
    match next_version_read(VersionStage::CountingTables, Some(1)) {
        VersionRead::Ask { query, stage } => {
            assert_eq!(query, SELECT_VERSION);
            assert_eq!(stage, VersionStage::ReadingRow);
        }
        other => panic!("expected a question, got {:?}", other),
    }
    assert!(matches!(
        next_version_read(VersionStage::ReadingRow, Some(9999)),
        VersionRead::Known(9999)
    ));
    assert!(matches!(
        next_version_read(VersionStage::ReadingRow, None),
        VersionRead::Known(0)
    ));
}

#[test]
fn statements_by_stored_version() {
    assert_eq!(pending_statements(0).unwrap(), vec![DDL_V1, SEED_V1, RECORD_V1]);
    assert_eq!(pending_statements(-7).unwrap(), vec![DDL_V1, SEED_V1, RECORD_V1]);
    assert!(pending_statements(1).unwrap().is_empty());
    assert!(matches!(
        pending_statements(2),
        Err(InstallLogError::UnsupportedSchemaVersion { found: 2, max: 1 })
    ));
}

#[test]
fn apply_on_meta_table_without_version_row() {
    let conn = Connection::open_in_memory().unwrap();
    conn.execute_batch(
        "CREATE TABLE schema_meta (key TEXT PRIMARY KEY, int_value INTEGER, text_value TEXT);",
    )
    .unwrap();
    nmm_core::schema::apply(&conn).expect("a meta table without a version row reads as 0");
    let version: i64 = conn
        .query_row(
            "SELECT int_value FROM schema_meta WHERE key = 'schema_version'",
            [],
            |row| row.get(0),
        )
        .unwrap();
    assert_eq!(version, nmm_core::schema::CURRENT_VERSION);
}

#[test]
fn apply_reports_store_errors() {
    let conn = Connection::open_in_memory().unwrap();
    conn.execute_batch("CREATE TABLE schema_meta (key TEXT PRIMARY KEY);").unwrap();
    match nmm_core::schema::apply(&conn) {
        Err(InstallLogError::Db(_)) => {}
        other => panic!("expected a database error, got: {:?}", other),
    }
}

#[test]
fn apply_treats_negative_version_as_fresh() {
    let conn = Connection::open_in_memory().unwrap();
    conn.execute_batch(
        "CREATE TABLE schema_meta (key TEXT PRIMARY KEY, int_value INTEGER, text_value TEXT);
         INSERT INTO schema_meta (key, int_value) VALUES ('schema_version', -5);",
    )
    .unwrap();
    nmm_core::schema::apply(&conn).expect("a negative version migrates like a fresh store");
    let version: i64 = conn
        .query_row(
            "SELECT int_value FROM schema_meta WHERE key = 'schema_version'",
            [],
            |row| row.get(0),
        )
        .unwrap();
    assert_eq!(version, nmm_core::schema::CURRENT_VERSION);
    let count: i64 = conn
        .query_row(
            "SELECT COUNT(*) FROM sqlite_master WHERE type='table' AND name='file_owners'",
            [],
            |row| row.get(0),
        )
        .unwrap();
    assert_eq!(count, 1);
}
