//! Error types.
use vstd::prelude::*;

verus! {

/// `std::io::Error`, carried unopened in the `Io` variants.
#[verifier::external_type_specification]
#[verifier::external_body]
pub struct ExIoError(std::io::Error);

/// `prefix` followed by `detail`.
fn message(prefix: &str, detail: &str) -> (r: String)
    ensures
        r@ == prefix@ + detail@,
{
    let mut r = String::from_str(prefix);
    r.append(detail);
    r
}

/// The text of an I/O error wrapped by one of this library's errors.
fn io_message(e: &std::io::Error) -> (r: String)
    ensures
        r@.len() >= 10,
        r@.subrange(0, 10) == "IO error: "@,
{
    let t = e.to_string();
    let r = message("IO error: ", t.as_str());
    proof {
        reveal_strlit("IO error: ");
        assert(r@.subrange(0, 10) =~= "IO error: "@);
    }
    r
}

/// Errors that can occur when working with mods.
#[derive(Debug)]
pub enum ModError {
    /// A file was not found in the mod archive.
    FileNotFound(String),
    /// Failed to read or parse the mod archive.
    ArchiveError(String),
    /// An I/O error occurred.
    Io(std::io::Error),
}

impl ModError {
    /// The error as text.
    pub fn to_string(&self) -> (r: String)
        ensures
            match self {
                ModError::FileNotFound(s) => r@ == "File not found in mod: "@ + s@,
                ModError::ArchiveError(s) => r@ == "Failed to read archive: "@ + s@,
                ModError::Io(_) => r@.len() >= 10 && r@.subrange(0, 10) == "IO error: "@,
            },
    {
        match self {
            ModError::FileNotFound(s) => message("File not found in mod: ", s.as_str()),
            ModError::ArchiveError(s) => message("Failed to read archive: ", s.as_str()),
            ModError::Io(e) => io_message(e),
        }
    }
}

impl From<std::io::Error> for ModError {
    fn from(e: std::io::Error) -> (r: ModError) {
        ModError::Io(e)
    }
}

impl vstd::std_specs::convert::FromSpecImpl<std::io::Error> for ModError {
    open spec fn obeys_from_spec() -> bool {
        true
    }

    open spec fn from_spec(e: std::io::Error) -> ModError {
        ModError::Io(e)
    }
}

/// Errors that can occur when working with mod formats.
#[derive(Debug)]
pub enum ModFormatError {
    /// The file format is not supported.
    UnsupportedFormat,
    /// The archive is corrupted or invalid.
    CorruptArchive(String),
    /// An I/O error occurred.
    Io(std::io::Error),
}

impl ModFormatError {
    /// The error as text.
    pub fn to_string(&self) -> (r: String)
        ensures
            match self {
                ModFormatError::UnsupportedFormat => r@ == "Unsupported format"@,
                ModFormatError::CorruptArchive(s) => r@ == "Corrupt archive: "@ + s@,
                ModFormatError::Io(_) => r@.len() >= 10 && r@.subrange(0, 10) == "IO error: "@,
            },
    {
        match self {
            ModFormatError::UnsupportedFormat => String::from_str("Unsupported format"),
            ModFormatError::CorruptArchive(s) => message("Corrupt archive: ", s.as_str()),
            ModFormatError::Io(e) => io_message(e),
        }
    }
}

impl From<std::io::Error> for ModFormatError {
    fn from(e: std::io::Error) -> (r: ModFormatError) {
        ModFormatError::Io(e)
    }
}

impl vstd::std_specs::convert::FromSpecImpl<std::io::Error> for ModFormatError {
    open spec fn obeys_from_spec() -> bool {
        true
    }

    open spec fn from_spec(e: std::io::Error) -> ModFormatError {
        ModFormatError::Io(e)
    }
}

/// Errors that can occur when working with game plugins.
#[derive(Debug)]
pub enum PluginError {
    /// The plugin file is invalid or cannot be parsed.
    Invalid(String),
    /// The plugin file was not found; holds its path.
    NotFound(String),
    /// A required master plugin is missing.
    MissingMaster(String),
    /// An I/O error occurred.
    Io(std::io::Error),
}

impl PluginError {
    /// The error as text.
    pub fn to_string(&self) -> (r: String)
        ensures
            match self {
                PluginError::Invalid(s) => r@ == "Invalid plugin: "@ + s@,
                PluginError::NotFound(s) => r@ == "Plugin not found: "@ + s@,
                PluginError::MissingMaster(s) => r@ == "Missing master: "@ + s@,
                PluginError::Io(_) => r@.len() >= 10 && r@.subrange(0, 10) == "IO error: "@,
            },
    {
        match self {
            PluginError::Invalid(s) => message("Invalid plugin: ", s.as_str()),
            PluginError::NotFound(s) => message("Plugin not found: ", s.as_str()),
            PluginError::MissingMaster(s) => message("Missing master: ", s.as_str()),
            PluginError::Io(e) => io_message(e),
        }
    }
}

impl From<std::io::Error> for PluginError {
    fn from(e: std::io::Error) -> (r: PluginError) {
        PluginError::Io(e)
    }
}

impl vstd::std_specs::convert::FromSpecImpl<std::io::Error> for PluginError {
    open spec fn obeys_from_spec() -> bool {
        true
    }

    open spec fn from_spec(e: std::io::Error) -> PluginError {
        PluginError::Io(e)
    }
}

/// Errors that can occur when working with game modes.
#[derive(Debug)]
pub enum GameModeError {
    /// The game installation was not found; holds the path searched.
    GameNotFound(String),
    /// The game version is not supported.
    UnsupportedVersion(String),
    /// An I/O error occurred.
    Io(std::io::Error),
}

impl GameModeError {
    /// The error as text.
    pub fn to_string(&self) -> (r: String)
        ensures
            match self {
                GameModeError::GameNotFound(s) => r@ == "Game not found at path: "@ + s@,
                GameModeError::UnsupportedVersion(s) => r@ == "Unsupported game version: "@ + s@,
                GameModeError::Io(_) => r@.len() >= 10 && r@.subrange(0, 10) == "IO error: "@,
            },
    {
        match self {
            GameModeError::GameNotFound(s) => message("Game not found at path: ", s.as_str()),
            GameModeError::UnsupportedVersion(s) => message(
                "Unsupported game version: ",
                s.as_str(),
            ),
            GameModeError::Io(e) => io_message(e),
        }
    }
}

impl From<std::io::Error> for GameModeError {
    fn from(e: std::io::Error) -> (r: GameModeError) {
        GameModeError::Io(e)
    }
}

impl vstd::std_specs::convert::FromSpecImpl<std::io::Error> for GameModeError {
    open spec fn obeys_from_spec() -> bool {
        true
    }

    open spec fn from_spec(e: std::io::Error) -> GameModeError {
        GameModeError::Io(e)
    }
}

/// Errors of the install log.
#[derive(Debug)]
pub enum InstallLogError {
    /// The mod identified by the given key is not registered.
    ModNotFound(String),
    /// A mod with this key is already registered.
    AlreadyRegistered(String),
    /// The requested ownership entry does not exist.
    EntryNotFound(String),
    /// The claim cannot be recorded: the owner already claimed the resource,
    /// or original values are logged for a resource that already has claims.
    AlreadyClaimed(String),
    /// No transaction is currently active.
    NoActiveTransaction,
    /// A transaction is already active.
    TransactionAlreadyActive,
    /// An I/O error occurred.
    Io(std::io::Error),
}

impl InstallLogError {
    /// The error as text.
    pub fn to_string(&self) -> (r: String)
        ensures
            match self {
                InstallLogError::ModNotFound(s) => r@ == "Mod not found: "@ + s@,
                InstallLogError::AlreadyRegistered(s) => r@ == "Mod already registered: "@ + s@,
                InstallLogError::EntryNotFound(s) => r@ == "Entry not found: "@ + s@,
                InstallLogError::AlreadyClaimed(s) => r@ == "Entry already claimed: "@ + s@,
                InstallLogError::NoActiveTransaction => r@ == "No active transaction"@,
                InstallLogError::TransactionAlreadyActive => r@ == "Transaction already active"@,
                InstallLogError::Io(_) => r@.len() >= 10 && r@.subrange(0, 10) == "IO error: "@,
            },
    {
        match self {
            InstallLogError::ModNotFound(s) => message("Mod not found: ", s.as_str()),
            InstallLogError::AlreadyRegistered(s) => message("Mod already registered: ", s.as_str()),
            InstallLogError::EntryNotFound(s) => message("Entry not found: ", s.as_str()),
            InstallLogError::AlreadyClaimed(s) => message("Entry already claimed: ", s.as_str()),
            InstallLogError::NoActiveTransaction => String::from_str("No active transaction"),
            InstallLogError::TransactionAlreadyActive => String::from_str(
                "Transaction already active",
            ),
            InstallLogError::Io(e) => io_message(e),
        }
    }
}

impl From<std::io::Error> for InstallLogError {
    fn from(e: std::io::Error) -> (r: InstallLogError) {
        InstallLogError::Io(e)
    }
}

impl vstd::std_specs::convert::FromSpecImpl<std::io::Error> for InstallLogError {
    open spec fn obeys_from_spec() -> bool {
        true
    }

    open spec fn from_spec(e: std::io::Error) -> InstallLogError {
        InstallLogError::Io(e)
    }
}

} // verus!
