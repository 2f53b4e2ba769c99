use nmm_core::{is_critical_plugin, GameModeDescriptor, GameTheme};

struct MockGameDescriptor;

impl GameModeDescriptor for MockGameDescriptor {
    fn mode_id(&self) -> &str {
        "MockGame"
    }
    fn name(&self) -> &str {
        "Mock Game"
    }
    fn game_executables(&self) -> &[&str] {
        &["MockGame.exe"]
    }
    fn plugin_extensions(&self) -> &[&str] {
        &[]
    }
    fn critical_plugins(&self) -> &[&str] {
        &[]
    }
    fn official_plugins(&self) -> &[&str] {
        &[]
    }
    fn stop_folders(&self) -> &[&str] {
        &["Data"]
    }
    fn theme(&self) -> GameTheme {
        GameTheme::default()
    }
}

struct TestGameDescriptor;

impl GameModeDescriptor for TestGameDescriptor {
    fn mode_id(&self) -> &str {
        "TestGame"
    }
    fn name(&self) -> &str {
        "Test Game"
    }
    fn game_executables(&self) -> &[&str] {
        &["MockGame.exe"]
    }
    fn plugin_extensions(&self) -> &[&str] {
        &[".esp", ".esm"]
    }
    fn critical_plugins(&self) -> &[&str] {
        &["Base.esm"]
    }
    fn official_plugins(&self) -> &[&str] {
        &["Base.esm"]
    }
    fn stop_folders(&self) -> &[&str] {
        &["Data"]
    }
    fn theme(&self) -> GameTheme {
        GameTheme {
            primary_color: "#aabbcc".into(),
            icon_path: None,
        }
    }
}

#[test]
fn test_descriptor_defaults() {
    let desc = MockGameDescriptor;
    assert_eq!(desc.max_active_plugins(), 0);
    assert!(desc.required_tool_name().is_none());
}

#[test]
fn mock_game_dir_layout() {
    let desc = TestGameDescriptor;
    assert_eq!(desc.mode_id(), "TestGame");
    assert_eq!(desc.name(), "Test Game");
    assert_eq!(desc.game_executables(), &["MockGame.exe"]);
    assert_eq!(desc.plugin_extensions(), &[".esp", ".esm"]);
    assert_eq!(desc.critical_plugins(), &["Base.esm"]);
    assert_eq!(desc.stop_folders(), &["Data"]);
    assert_eq!(desc.theme().primary_color, "#aabbcc");
    assert_eq!(desc.max_active_plugins(), 0);
    assert!(desc.required_tool_name().is_none());
}

#[test]
fn critical_plugins_match_without_case() {
    let desc = TestGameDescriptor;
    assert!(is_critical_plugin(desc.critical_plugins(), "base.ESM"));
    assert!(!is_critical_plugin(desc.critical_plugins(), "Other.esm"));
    assert!(!is_critical_plugin(&[], "Base.esm"));
}
