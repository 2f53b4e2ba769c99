use nmm_core::{IniEdit, InstallLedger, InstallLogError, ModInfo, ORIGINAL_VALUES_KEY};

fn info(name: &str) -> ModInfo {
    ModInfo::new(name, "archive.7z")
}

fn ledger_with(mods: &[&str]) -> InstallLedger {
    let mut log = InstallLedger::new();
    for m in mods {
        log.add_mod(m, &info(m)).unwrap();
    }
    log
}

#[test]
fn concrete_file_ownership_scenario() {
    let mut log = InstallLedger::new();
    log.add_mod("mod1", &info("one")).unwrap();
    log.add_data_file("mod1", "Data/test.dds").unwrap();
    assert_eq!(log.get_current_file_owner("Data/test.dds"), Some("mod1".to_string()));

    log.add_mod("mod2", &info("two")).unwrap();
    log.add_data_file("mod2", "DATA/TEST.DDS").unwrap();
    assert_eq!(log.get_current_file_owner("Data/test.dds"), Some("mod2".to_string()));
    assert_eq!(log.get_previous_file_owner("Data/test.dds"), Some("mod1".to_string()));
    assert_eq!(log.get_file_installers("Data/test.dds"), vec!["mod1", "mod2"]);
}

#[test]
fn case_variants_are_one_resource() {
    let mut log = ledger_with(&["m1"]);
    log.add_data_file("m1", "Data/Test.DDS").unwrap();
    assert_eq!(log.get_current_file_owner("data/test.dds"), Some("m1".to_string()));
    assert!(matches!(
        log.add_data_file("m1", "data/test.dds"),
        Err(InstallLogError::AlreadyClaimed(_))
    ));
    log.remove_data_file("m1", "DATA/TEST.dds").unwrap();
    assert_eq!(log.get_current_file_owner("Data/Test.DDS"), None);

    log.add_gsv_edit("m1", "Some.Key", &[1, 2]).unwrap();
    assert_eq!(log.get_current_gsv_edit_owner("some.key"), Some("m1".to_string()));
    let edit = IniEdit::new("Skyrim.ini", "Display", "bFullScreen");
    log.add_ini_edit("m1", &edit, "1").unwrap();
    let variant = IniEdit::new("SKYRIM.INI", "display", "BFULLSCREEN");
    assert_eq!(log.get_current_ini_edit_owner(&variant), Some("m1".to_string()));
}

#[test]
fn ownership_reverts_in_reverse_order() {
    let mut log = ledger_with(&["A", "B"]);
    log.add_data_file("A", "Data/x.esp").unwrap();
    log.add_data_file("B", "Data/x.esp").unwrap();
    assert_eq!(log.get_current_file_owner("Data/x.esp"), Some("B".to_string()));
    assert_eq!(log.get_previous_file_owner("Data/x.esp"), Some("A".to_string()));
    log.remove_data_file("B", "Data/x.esp").unwrap();
    assert_eq!(log.get_current_file_owner("Data/x.esp"), Some("A".to_string()));
    assert_eq!(log.get_previous_file_owner("Data/x.esp"), None);
    log.remove_data_file("A", "Data/x.esp").unwrap();
    assert_eq!(log.get_current_file_owner("Data/x.esp"), None);
    assert!(log.get_file_installers("Data/x.esp").is_empty());
}

#[test]
fn begin_twice_fails() {
    let mut log = InstallLedger::new();
    log.begin_transaction().unwrap();
    assert!(matches!(
        log.begin_transaction(),
        Err(InstallLogError::TransactionAlreadyActive)
    ));
}

#[test]
fn commit_and_rollback_need_a_transaction() {
    let mut log = InstallLedger::new();
    assert!(matches!(log.commit_transaction(), Err(InstallLogError::NoActiveTransaction)));
    assert!(matches!(log.rollback_transaction(), Err(InstallLogError::NoActiveTransaction)));
    log.begin_transaction().unwrap();
    log.commit_transaction().unwrap();
    assert!(matches!(log.commit_transaction(), Err(InstallLogError::NoActiveTransaction)));
}

#[test]
fn rollback_restores_state_before_begin() {
    let mut log = ledger_with(&["m1"]);
    log.add_data_file("m1", "Data/a.dds").unwrap();
    let counter = log.sequence_counter();
    log.begin_transaction().unwrap();
    assert!(log.in_transaction());
    log.add_mod("m2", &info("two")).unwrap();
    log.add_data_file("m2", "Data/a.dds").unwrap();
    log.add_ini_edit("m2", &IniEdit::new("a.ini", "s", "k"), "v").unwrap();
    log.remove_data_file("m1", "Data/a.dds").unwrap();
    assert_eq!(log.get_current_file_owner("Data/a.dds"), Some("m2".to_string()));
    log.rollback_transaction().unwrap();
    assert!(!log.in_transaction());
    assert_eq!(log.get_current_file_owner("Data/a.dds"), Some("m1".to_string()));
    assert_eq!(log.get_file_installers("Data/a.dds"), vec!["m1"]);
    assert!(log.get_mod("m2").is_none());
    assert_eq!(log.active_mods().len(), 1);
    assert_eq!(
        log.get_current_ini_edit_owner(&IniEdit::new("a.ini", "s", "k")),
        None
    );
    assert_eq!(log.sequence_counter(), counter);
}

#[test]
fn commit_keeps_changes() {
    let mut log = ledger_with(&["m1"]);
    log.begin_transaction().unwrap();
    log.add_data_file("m1", "Data/a.dds").unwrap();
    log.commit_transaction().unwrap();
    assert_eq!(log.get_current_file_owner("Data/a.dds"), Some("m1".to_string()));
}

#[test]
fn duplicate_registration_and_missing_mod() {
    let mut log = InstallLedger::new();
    log.add_mod("m1", &info("first")).unwrap();
    match log.add_mod("m1", &info("second")) {
        Err(InstallLogError::AlreadyRegistered(k)) => assert_eq!(k, "m1"),
        other => panic!("expected AlreadyRegistered, got {:?}", other),
    }
    assert_eq!(log.get_mod("m1").unwrap().name, "first");
    match log.remove_mod("ghost") {
        Err(InstallLogError::ModNotFound(k)) => assert_eq!(k, "ghost"),
        other => panic!("expected ModNotFound, got {:?}", other),
    }
    assert!(matches!(
        log.add_mod(ORIGINAL_VALUES_KEY, &info("x")),
        Err(InstallLogError::AlreadyRegistered(_))
    ));
}

#[test]
fn replace_mod_overwrites_metadata() {
    let mut log = InstallLedger::new();
    assert!(matches!(
        log.replace_mod("m1", &info("x")),
        Err(InstallLogError::ModNotFound(_))
    ));
    log.add_mod("m1", &info("first").with_author("Ann")).unwrap();
    log.replace_mod("m1", &info("second")).unwrap();
    let m = log.get_mod("m1").unwrap();
    assert_eq!(m.name, "second");
    assert_eq!(m.author, None);
    assert_eq!(log.active_mods().len(), 1);
}

#[test]
fn remove_mod_cascades_to_all_claims() {
    let mut log = ledger_with(&["m1", "m2"]);
    let edit = IniEdit::new("Skyrim.ini", "Display", "iSize W");
    log.add_data_file("m1", "Data/a.dds").unwrap();
    log.add_data_file("m2", "Data/a.dds").unwrap();
    log.add_data_file("m1", "Data/b.dds").unwrap();
    log.add_ini_edit("m1", &edit, "1920").unwrap();
    log.add_gsv_edit("m1", "gsv", &[0xFF]).unwrap();
    log.remove_mod("m1").unwrap();
    assert_eq!(log.get_file_installers("Data/a.dds"), vec!["m2"]);
    assert!(log.get_file_installers("Data/b.dds").is_empty());
    assert!(log.get_ini_edit_installers(&edit).is_empty());
    assert!(log.get_gsv_edit_installers("gsv").is_empty());
    assert!(matches!(
        log.get_installed_mod_files("m1"),
        Err(InstallLogError::ModNotFound(_))
    ));
    assert!(log.get_mod("m1").is_none());
}

#[test]
fn claims_need_a_registered_mod() {
    let mut log = InstallLedger::new();
    match log.add_data_file("ghost", "Data/a.dds") {
        Err(InstallLogError::ModNotFound(k)) => assert_eq!(k, "ghost"),
        other => panic!("expected ModNotFound, got {:?}", other),
    }
    assert!(matches!(
        log.add_ini_edit("ghost", &IniEdit::new("a", "b", "c"), "v"),
        Err(InstallLogError::ModNotFound(_))
    ));
    assert!(matches!(
        log.add_gsv_edit("ghost", "k", &[1]),
        Err(InstallLogError::ModNotFound(_))
    ));
}

#[test]
fn missing_entries_are_reported() {
    let mut log = ledger_with(&["m1"]);
    match log.remove_data_file("m1", "Data/none.dds") {
        Err(InstallLogError::EntryNotFound(t)) => assert_eq!(t, "Data/none.dds"),
        other => panic!("expected EntryNotFound, got {:?}", other),
    }
    match log.replace_ini_edit("m1", &IniEdit::new("a.ini", "S", "K"), "v") {
        Err(InstallLogError::EntryNotFound(t)) => assert_eq!(t, "a.ini[S].K"),
        other => panic!("expected EntryNotFound, got {:?}", other),
    }
    assert!(matches!(
        log.remove_gsv_edit("m1", "nothing"),
        Err(InstallLogError::EntryNotFound(_))
    ));
}

#[test]
fn ini_values_and_previous_value() {
    let mut log = ledger_with(&["m1", "m2"]);
    let edit = IniEdit::new("Skyrim.ini", "Display", "fShadowDistance");
    log.log_original_ini_value(&edit, "1000").unwrap();
    log.add_ini_edit("m1", &edit, "1500").unwrap();
    assert_eq!(log.get_previous_ini_value(&edit), Some("1000".to_string()));
    log.add_ini_edit("m2", &edit, "2000").unwrap();
    assert_eq!(log.get_previous_ini_value(&edit), Some("1500".to_string()));
    log.replace_ini_edit("m1", &edit, "1600").unwrap();
    assert_eq!(log.get_previous_ini_value(&edit), Some("1600".to_string()));
    assert_eq!(
        log.get_ini_edit_installers(&edit),
        vec![ORIGINAL_VALUES_KEY, "m1", "m2"]
    );
    let edits = log.get_installed_ini_edits("m1").unwrap();
    assert_eq!(edits.len(), 1);
    assert_eq!(edits[0].key, "fShadowDistance");
    log.remove_ini_edit("m2", &edit).unwrap();
    assert_eq!(log.get_current_ini_edit_owner(&edit), Some("m1".to_string()));
    assert_eq!(log.get_previous_ini_value(&edit), Some("1000".to_string()));
}

#[test]
fn gsv_values_and_previous_value() {
    let mut log = ledger_with(&["m1", "m2"]);
    log.log_original_gsv_value("reg/key", &[0xDE, 0xAD]).unwrap();
    log.add_gsv_edit("m1", "reg/key", &[0xBE, 0xEF]).unwrap();
    assert_eq!(log.get_previous_gsv_value("REG/KEY"), Some(vec![0xDE, 0xAD]));
    log.add_gsv_edit("m2", "reg/key", &[1]).unwrap();
    log.replace_gsv_edit("m1", "reg/key", &[2, 3]).unwrap();
    assert_eq!(log.get_previous_gsv_value("reg/key"), Some(vec![2, 3]));
    assert_eq!(log.get_current_gsv_edit_owner("reg/key"), Some("m2".to_string()));
    assert_eq!(log.get_installed_gsv_edits("m2").unwrap(), vec!["reg/key"]);
    log.remove_gsv_edit("m2", "reg/key").unwrap();
    assert_eq!(log.get_gsv_edit_installers("reg/key"), vec![ORIGINAL_VALUES_KEY, "m1"]);
}

#[test]
fn original_values_only_below_every_claim() {
    let mut log = ledger_with(&["m1"]);
    log.log_original_data_file("Data/orig.esm").unwrap();
    assert!(matches!(
        log.log_original_data_file("data/ORIG.esm"),
        Err(InstallLogError::AlreadyClaimed(_))
    ));
    log.add_data_file("m1", "Data/late.esm").unwrap();
    match log.log_original_data_file("Data/late.esm") {
        Err(InstallLogError::AlreadyClaimed(t)) => assert_eq!(t, "Data/late.esm"),
        other => panic!("expected AlreadyClaimed, got {:?}", other),
    }
    assert_eq!(
        log.get_installed_mod_files(ORIGINAL_VALUES_KEY).unwrap(),
        vec!["Data/orig.esm"]
    );
    log.remove_data_file(ORIGINAL_VALUES_KEY, "Data/orig.esm").unwrap();
    assert_eq!(log.get_current_file_owner("Data/orig.esm"), None);
}

#[test]
fn installed_files_in_claim_order() {
    let mut log = ledger_with(&["m1"]);
    log.add_data_file("m1", "b.dds").unwrap();
    log.add_data_file("m1", "a.dds").unwrap();
    assert_eq!(log.get_installed_mod_files("m1").unwrap(), vec!["b.dds", "a.dds"]);
    assert_eq!(log.sequence_counter(), 2);
}

#[test]
fn backup_is_a_copy() {
    let mut log = ledger_with(&["m1"]);
    log.add_data_file("m1", "Data/a.dds").unwrap();
    let copy = log.backup();
    log.remove_mod("m1").unwrap();
    assert_eq!(copy.get_current_file_owner("Data/a.dds"), Some("m1".to_string()));
    assert_eq!(log.get_current_file_owner("Data/a.dds"), None);
}

#[test]
fn exported_records_match_queries() {
    let mut log = ledger_with(&["m1", "m2"]);
    log.log_original_data_file("Data/a.dds").unwrap();
    log.add_data_file("m1", "Data/a.dds").unwrap();
    log.add_ini_edit("m2", &IniEdit::new("a.ini", "S", "K"), "v").unwrap();
    log.add_gsv_edit("m1", "g", &[7]).unwrap();
    let entries = log.mod_entries();
    assert_eq!(entries.len(), 2);
    assert_eq!(entries[0].0, "m1");
    assert_eq!(entries[1].1.name, "m2");
    let files = log.file_claims();
    assert_eq!(files.len(), 2);
    assert_eq!(files[0].owner, ORIGINAL_VALUES_KEY);
    assert_eq!(files[1].owner, "m1");
    assert!(files[0].sequence < files[1].sequence);
    let inis = log.ini_claims();
    assert_eq!(inis[0].value, "v");
    assert_eq!(inis[0].resource.key, "K");
    let gsvs = log.gsv_claims();
    assert_eq!(gsvs[0].value, vec![7]);
    assert_eq!(gsvs[0].sequence, 3);
}

#[test]
fn counter_only_moves_up() {
    let mut log = ledger_with(&["m1"]);
    log.advance_sequence_counter(10);
    assert_eq!(log.sequence_counter(), 10);
    log.advance_sequence_counter(4);
    assert_eq!(log.sequence_counter(), 10);
    log.add_data_file("m1", "x").unwrap();
    assert_eq!(log.file_claims()[0].sequence, 10);
    assert_eq!(log.sequence_counter(), 11);
}
