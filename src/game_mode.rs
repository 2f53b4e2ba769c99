//! Descriptions of games: static metadata, UI theme, plugins and the
//! capabilities a game offers over them.
use vstd::prelude::*;
use crate::error::ModError;
use crate::fold::{eq_ignore_case, folded};

verus! {

/// UI theme for a game mode.
#[derive(Debug, Clone, Default)]
pub struct GameTheme {
    /// Primary UI color, in hex, such as `#4a90d9`.
    pub primary_color: String,
    /// Path to the game icon.
    pub icon_path: Option<String>,
}

/// Static metadata about a game mode, independent of any installation.
pub trait GameModeDescriptor: Send + Sync {
    /// Unique, filesystem-safe identifier, such as `SkyrimSE`.
    fn mode_id(&self) -> &str;

    /// Human-readable display name.
    fn name(&self) -> &str;

    /// Possible executable names for the game.
    fn game_executables(&self) -> &[&str];

    /// File extensions of game plugins; empty for games without plugins.
    fn plugin_extensions(&self) -> &[&str];

    /// Plugins that cannot be disabled or reordered.
    fn critical_plugins(&self) -> &[&str];

    /// Official DLC and expansion plugins in their load order.
    fn official_plugins(&self) -> &[&str];

    /// Folders that mark the root of mod content in archives.
    fn stop_folders(&self) -> &[&str];

    /// UI theme for this game mode.
    fn theme(&self) -> GameTheme;

    /// Maximum number of active plugins; 0 means unlimited.
    fn max_active_plugins(&self) -> u32 {
        0
    }

    /// Name of a required external tool, if any.
    fn required_tool_name(&self) -> Option<&str> {
        None
    }
}

/// A game plugin.
#[derive(Debug, Clone)]
pub struct Plugin {
    /// Full path to the plugin file.
    pub path: String,
    /// Plugin filename.
    pub filename: String,
    /// Whether this is a master file.
    pub is_master: bool,
    /// Whether this is a light plugin.
    pub is_light: bool,
    /// Required master plugins.
    pub masters: Vec<String>,
    /// Plugin description, from the file header.
    pub description: Option<String>,
    /// Plugin author, from the file header.
    pub author: Option<String>,
}

/// Creates plugins from files, for games that use plugins.
pub trait PluginFactory: Send + Sync {
    /// Creates a plugin from the file at `path`.
    fn create_plugin(&self, path: &str) -> Result<Plugin, ModError>;

    /// Whether the file at `path` is a valid plugin.
    fn is_plugin(&self, path: &str) -> bool;
}

/// Checks and corrects plugin orders.
pub trait PluginOrderValidator: Send + Sync {
    /// Whether `plugins` is a valid order.
    fn validate(&self, plugins: &[Plugin]) -> bool;

    /// Corrects an invalid order in place.
    fn correct_order(&self, plugins: &mut Vec<Plugin>);
}

/// Manages the load order of plugins.
pub trait LoadOrderManager: Send + Sync {
    /// The current load order.
    fn get_load_order(&self) -> Result<Vec<Plugin>, ModError>;

    /// Sets the load order.
    fn set_load_order(&mut self, plugins: &[Plugin]) -> Result<(), ModError>;

    /// Activates a plugin.
    fn activate(&mut self, plugin: &Plugin) -> Result<(), ModError>;

    /// Deactivates a plugin.
    fn deactivate(&mut self, plugin: &Plugin) -> Result<(), ModError>;

    /// The active plugins.
    fn active_plugins(&self) -> Vec<&Plugin>;
}

/// Whether `name` is one of `critical`, ignoring ASCII case.
pub fn is_critical_plugin(critical: &[&str], name: &str) -> (r: bool)
    ensures
        r == exists|i: int| 0 <= i < critical@.len() && folded(critical@[i]@) == folded(name@),
{
    let mut i: usize = 0;
    while i < critical.len()
        invariant
            i <= critical@.len(),
            forall|j: int| 0 <= j < i ==> folded(critical@[j]@) != folded(name@),
        decreases critical@.len() - i,
    {
        if eq_ignore_case(critical[i], name) {
            return true;
        }
        i = i + 1;
    }
    false
}

} // verus!
