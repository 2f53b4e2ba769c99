//! An installation ownership ledger for a mod manager: which installed mod
//! owns each data file, INI setting and game-specific value, with claims
//! stacked by sequence number, keys compared without ASCII case,
//! transactions that commit or roll back as a whole, and an idempotent
//! schema for the persistent store. Around it: mod metadata with the
//! version heuristic and field merge, and the descriptions of games and
//! mod formats that call into the ledger.

pub mod error;
pub mod fold;
pub mod game_mode;
pub mod ini_edit;
pub mod install_log;
pub mod ledger;
pub mod mod_format;
pub mod mod_info;
pub mod ownership;
pub mod schema;
pub mod version;

pub use error::{GameModeError, InstallLogError, ModError, ModFormatError, PluginError};
pub use game_mode::{
    is_critical_plugin, GameModeDescriptor, GameTheme, LoadOrderManager, Plugin, PluginFactory,
    PluginOrderValidator,
};
pub use ini_edit::IniEdit;
pub use install_log::InstallLog;
pub use ledger::{InstallLedger, ORIGINAL_VALUES_KEY};
pub use mod_format::{best_format, FormatConfidence};
pub use mod_info::{ModInfo, ScriptType, Timestamp};
pub use ownership::Claim;
pub use version::ModVersion;
