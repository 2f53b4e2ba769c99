use nmm_core::{GameModeError, InstallLogError, ModError, ModFormatError, PluginError};

#[test]
fn test_plugin_error_display() {
    let e = PluginError::Invalid("bad header".into());
    assert_eq!(e.to_string(), "Invalid plugin: bad header");

    let e = PluginError::NotFound("Data/mods/missing.esp".into());
    assert_eq!(e.to_string(), "Plugin not found: Data/mods/missing.esp");

    let e = PluginError::MissingMaster("Skyrim.esm".into());
    assert_eq!(e.to_string(), "Missing master: Skyrim.esm");
}

#[test]
fn test_plugin_error_from_io() {
    let io_err = std::io::Error::new(std::io::ErrorKind::NotFound, "file missing");
    let plugin_err = PluginError::from(io_err);
    assert!(plugin_err.to_string().contains("IO error"));
}

#[test]
fn test_mod_error_display() {
    let e = ModError::FileNotFound("textures/test.dds".into());
    assert_eq!(e.to_string(), "File not found in mod: textures/test.dds");

    let e = ModError::ArchiveError("truncated".into());
    assert_eq!(e.to_string(), "Failed to read archive: truncated");
}

#[test]
fn test_mod_format_error_display() {
    let e = ModFormatError::UnsupportedFormat;
    assert_eq!(e.to_string(), "Unsupported format");

    let e = ModFormatError::CorruptArchive("bad magic".into());
    assert_eq!(e.to_string(), "Corrupt archive: bad magic");
}

#[test]
fn test_game_mode_error_display() {
    let e = GameModeError::GameNotFound("/opt/games/Skyrim".into());
    assert_eq!(e.to_string(), "Game not found at path: /opt/games/Skyrim");

    let e = GameModeError::UnsupportedVersion("0.9".into());
    assert_eq!(e.to_string(), "Unsupported game version: 0.9");
}

#[test]
fn test_install_log_error_display() {
    let e = InstallLogError::ModNotFound("mod_123".into());
    assert_eq!(e.to_string(), "Mod not found: mod_123");

    let e = InstallLogError::AlreadyRegistered("mod_456".into());
    assert_eq!(e.to_string(), "Mod already registered: mod_456");

    let e = InstallLogError::EntryNotFound("Data/test.dds".into());
    assert_eq!(e.to_string(), "Entry not found: Data/test.dds");

    let e = InstallLogError::NoActiveTransaction;
    assert_eq!(e.to_string(), "No active transaction");

    let e = InstallLogError::TransactionAlreadyActive;
    assert_eq!(e.to_string(), "Transaction already active");
}

#[test]
fn test_install_log_error_from_io() {
    let io_err = std::io::Error::new(std::io::ErrorKind::NotFound, "database missing");
    let log_err = InstallLogError::from(io_err);
    assert!(log_err.to_string().contains("IO error"));
    assert!(log_err.to_string().contains("database missing"));
}

#[test]
fn plugin_error_invalid_display() {
    let e = PluginError::Invalid("corrupt header".into());
    assert_eq!(e.to_string(), "Invalid plugin: corrupt header");
}

#[test]
fn plugin_error_not_found_display() {
    let e = PluginError::NotFound("Data/plugins/missing.esp".into());
    assert_eq!(e.to_string(), "Plugin not found: Data/plugins/missing.esp");
}

#[test]
fn plugin_error_missing_master_display() {
    let e = PluginError::MissingMaster("Skyrim.esm".into());
    assert_eq!(e.to_string(), "Missing master: Skyrim.esm");
}

#[test]
fn plugin_error_from_io() {
    let io_err = std::io::Error::new(std::io::ErrorKind::PermissionDenied, "access denied");
    let plugin_err = PluginError::from(io_err);
    assert!(
        plugin_err.to_string().contains("IO error"),
        "expected IO error wrapper, got: {}",
        plugin_err.to_string()
    );
    assert!(
        plugin_err.to_string().contains("access denied"),
        "expected inner message preserved, got: {}",
        plugin_err.to_string()
    );
}

#[test]
fn install_log_error_variants_display() {
    let e = InstallLogError::ModNotFound("my_mod_123".into());
    let display = e.to_string();
    assert!(!display.is_empty(), "Error display must not be empty");
    assert!(display.contains("my_mod_123"), "Error display must include context");

    let e = InstallLogError::AlreadyRegistered("duplicate_mod".into());
    let display = e.to_string();
    assert!(!display.is_empty());
    assert!(display.contains("duplicate_mod"));

    let e = InstallLogError::EntryNotFound("Data/test.dds".into());
    let display = e.to_string();
    assert!(!display.is_empty());
    assert!(display.contains("Data/test.dds"));

    let e = InstallLogError::NoActiveTransaction;
    assert_eq!(e.to_string(), "No active transaction", "Specific message expected");

    let e = InstallLogError::TransactionAlreadyActive;
    assert_eq!(e.to_string(), "Transaction already active", "Specific message expected");

    let io_err = std::io::Error::new(std::io::ErrorKind::PermissionDenied, "access denied");
    let log_err = InstallLogError::from(io_err);
    let display = log_err.to_string();
    assert!(display.contains("IO error"), "From<io::Error> must wrap properly");
    assert!(display.contains("access denied"), "Inner message must be preserved");
}

#[test]
fn already_claimed_display() {
    let e = InstallLogError::AlreadyClaimed("Data/test.dds".into());
    assert_eq!(e.to_string(), "Entry already claimed: Data/test.dds");
}
