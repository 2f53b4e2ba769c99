use nmm_core::{ModInfo, ModVersion, ScriptType, Timestamp};

#[test]
fn test_mod_info_builder() {
    let info = ModInfo::new("Test Mod", "TestMod.7z")
        .with_version("1.0.0")
        .with_author("Test Author");

    assert_eq!(info.name, "Test Mod");
    assert_eq!(info.file_name, "TestMod.7z");
    assert_eq!(info.version, "1.0.0");
    assert_eq!(info.author, Some("Test Author".into()));
}

#[test]
fn test_new_fields_defaults() {
    let info = ModInfo::default();
    assert!(info.last_known_version.is_none());
    assert!(info.screenshot.is_none());
    assert!(!info.update_warning_enabled);
    assert!(!info.update_checks_enabled);
    assert!(info.new_load_order.is_none());
}

#[test]
fn test_builder_pattern_new_methods() {
    let website = url::Url::parse("https://example.com").unwrap();
    let info = ModInfo::new("Test", "test.7z")
        .with_download_id("12345")
        .with_description("A test mod")
        .with_website(website.as_str())
        .with_screenshot(vec![1, 2, 3, 4])
        .with_update_warnings(true)
        .with_update_checks(true);

    assert_eq!(info.download_id, Some("12345".into()));
    assert_eq!(info.description, Some("A test mod".into()));
    assert!(info.website.is_some());
    assert_eq!(info.screenshot, Some(vec![1, 2, 3, 4]));
    assert!(info.update_warning_enabled);
    assert!(info.update_checks_enabled);
}

#[test]
fn test_version_parsing_valid() {
    assert_eq!(ModInfo::parse_version("1.2.3").unwrap().to_string(), "1.2.3");
    assert_eq!(ModInfo::parse_version("1.2").unwrap().to_string(), "1.2.0");
    assert_eq!(ModInfo::parse_version("5").unwrap().to_string(), "5.0.0");
    assert_eq!(ModInfo::parse_version("2.10.5").unwrap().to_string(), "2.10.5");
}

#[test]
fn test_version_parsing_with_prefix() {
    assert_eq!(ModInfo::parse_version("v1.2.3").unwrap().to_string(), "1.2.3");
    assert_eq!(ModInfo::parse_version("V1.5").unwrap().to_string(), "1.5.0");
    assert_eq!(ModInfo::parse_version("version 2.0.1").unwrap().to_string(), "2.0.1");
}

#[test]
fn test_version_parsing_edge_cases() {
    assert_eq!(ModInfo::parse_version(".5").unwrap().to_string(), "0.5.0");
    assert_eq!(ModInfo::parse_version("1.2.").unwrap().to_string(), "1.2.0");
    assert_eq!(ModInfo::parse_version("1..2").unwrap().to_string(), "1.2.0");
}

#[test]
fn test_version_parsing_invalid() {
    assert!(ModInfo::parse_version("invalid").is_none());
    assert!(ModInfo::parse_version("").is_none());
    assert!(ModInfo::parse_version("abc").is_none());
    assert!(ModInfo::parse_version("...").is_none());
}

#[test]
fn version_parsing_rejects_what_semver_rejects() {
    assert!(ModInfo::parse_version("1.2.3.4").is_none());
    assert!(ModInfo::parse_version("01.2.3").is_none());
    assert!(ModInfo::parse_version("99999999999999999999.0.0").is_none());
    assert_eq!(
        ModInfo::parse_version("0.0.0"),
        Some(ModVersion { major: 0, minor: 0, patch: 0 })
    );
    assert_eq!(
        ModInfo::parse_version("18446744073709551615"),
        Some(ModVersion { major: u64::MAX, minor: 0, patch: 0 })
    );
}

#[test]
fn version_to_string_writes_decimals() {
    let v = ModVersion { major: 10, minor: 0, patch: 305 };
    assert_eq!(v.to_string(), "10.0.305");
    assert!(ModVersion { major: 1, minor: 9, patch: 9 }
        .is_older_than(&ModVersion { major: 1, minor: 10, patch: 0 }));
    assert!(!ModVersion { major: 2, minor: 0, patch: 0 }
        .is_older_than(&ModVersion { major: 1, minor: 10, patch: 0 }));
}

#[test]
fn test_parse_machine_version() {
    let mut info = ModInfo::new("Test", "test.7z").with_version("v1.5.2");
    info.parse_machine_version();
    assert_eq!(info.machine_version.unwrap().to_string(), "1.5.2");
}

#[test]
fn test_has_update_true() {
    let mut info = ModInfo::new("Test", "test.7z").with_version("1.0.0");
    info.parse_machine_version();
    info.last_known_version = Some("1.5.0".into());
    assert!(info.has_update());
}

#[test]
fn test_has_update_false_same_version() {
    let mut info = ModInfo::new("Test", "test.7z").with_version("1.5.0");
    info.parse_machine_version();
    info.last_known_version = Some("1.5.0".into());
    assert!(!info.has_update());
}

#[test]
fn test_has_update_false_older_version() {
    let mut info = ModInfo::new("Test", "test.7z").with_version("2.0.0");
    info.parse_machine_version();
    info.last_known_version = Some("1.5.0".into());
    assert!(!info.has_update());
}

#[test]
fn test_has_update_no_machine_version() {
    let mut info = ModInfo::new("Test", "test.7z").with_version("invalid");
    info.last_known_version = Some("1.5.0".into());
    assert!(!info.has_update());
}

#[test]
fn test_should_notify_update() {
    let mut info = ModInfo::new("Test", "test.7z")
        .with_version("1.0.0")
        .with_update_warnings(true);
    info.parse_machine_version();
    info.last_known_version = Some("1.5.0".into());
    assert!(info.should_notify_update());
}

#[test]
fn test_should_notify_update_disabled() {
    let mut info = ModInfo::new("Test", "test.7z")
        .with_version("1.0.0")
        .with_update_warnings(false);
    info.parse_machine_version();
    info.last_known_version = Some("1.5.0".into());
    assert!(!info.should_notify_update());
}

#[test]
fn test_update_from_overwrite_all() {
    let mut original = ModInfo::new("A", "a.7z").with_version("1.0");
    let update = ModInfo::new("B", "b.7z").with_version("2.0");
    original.update_from(&update, true);
    assert_eq!(original.name, "B");
    assert_eq!(original.file_name, "b.7z");
    assert_eq!(original.version, "2.0");
}

#[test]
fn test_update_from_keep_existing() {
    let mut original = ModInfo::new("A", "a.7z").with_version("1.0");
    let update = ModInfo::new("B", "b.7z").with_description("Updated description");
    original.update_from(&update, false);
    assert_eq!(original.name, "A");
    assert_eq!(original.version, "1.0");
    assert_eq!(original.description, Some("Updated description".into()));
}

#[test]
fn test_update_from_fill_empty_fields() {
    let mut original = ModInfo::new("Test", "test.7z");
    let update = ModInfo::new("Test", "test.7z")
        .with_author("Author")
        .with_description("Description")
        .with_download_id("123");
    original.update_from(&update, false);
    assert_eq!(original.author, Some("Author".into()));
    assert_eq!(original.description, Some("Description".into()));
    assert_eq!(original.download_id, Some("123".into()));
}

#[test]
fn test_update_from_bool_fields() {
    let mut original = ModInfo::new("A", "a.7z")
        .with_update_warnings(false)
        .with_update_checks(false);
    let update = ModInfo::new("B", "b.7z")
        .with_update_warnings(true)
        .with_update_checks(true);

    original.update_from(&update, false);
    assert!(!original.update_warning_enabled);
    assert!(!original.update_checks_enabled);

    original.update_from(&update, true);
    assert!(original.update_warning_enabled);
    assert!(original.update_checks_enabled);
}

#[test]
fn update_from_forced_clears_fields() {
    let mut original = ModInfo::new("A", "a.7z").with_author("Someone");
    original.install_date = Some(Timestamp { seconds: 1_700_000_000, nanos: 5 });
    let update = ModInfo::new("B", "b.7z");
    original.update_from(&update, true);
    assert_eq!(original.author, None);
    assert_eq!(original.install_date, None);

    let mut kept = ModInfo::new("A", "a.7z").with_author("Someone");
    kept.install_date = Some(Timestamp { seconds: 1_700_000_000, nanos: 5 });
    kept.update_from(&update, false);
    assert_eq!(kept.author, Some("Someone".into()));
    assert_eq!(kept.install_date, Some(Timestamp { seconds: 1_700_000_000, nanos: 5 }));
}

#[test]
fn test_display_trait() {
    let info = ModInfo::new("Test Mod", "test.7z");
    assert_eq!(info.to_string(), "Test Mod");

    let info_with_version = info.with_version("1.2.3");
    assert_eq!(info_with_version.to_string(), "Test Mod v1.2.3");

    let info_with_author = info_with_version.with_author("John Doe");
    assert_eq!(info_with_author.to_string(), "Test Mod v1.2.3 by John Doe");
}

#[test]
fn test_load_order_independence() {
    let mut info1 = ModInfo::new("Test", "test.7z");
    info1.load_order = Some(5);
    info1.new_load_order = Some(10);

    let mut info2 = ModInfo::new("Test", "test.7z");
    info2.load_order = Some(3);
    info2.new_load_order = Some(7);

    assert_ne!(info1.load_order, info2.load_order);
    assert_ne!(info1.new_load_order, info2.new_load_order);
}

#[test]
fn script_types_are_distinct() {
    assert_ne!(ScriptType::XmlScript, ScriptType::ModScript);
    assert_ne!(ScriptType::ModScript, ScriptType::Wasm);
}
