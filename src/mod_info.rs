//! Mod metadata: what the ledger records about each registered mod.
use vstd::prelude::*;
use vstd::string::*;
use crate::version::{parse_version, version_lt, version_of, ModVersion};

verus! {

/// A point in time, UTC: whole seconds since the Unix epoch and the
/// nanoseconds past that second.
#[derive(Debug, Clone, Copy, PartialEq, Eq, Structural)]
pub struct Timestamp {
    pub seconds: i64,
    pub nanos: u32,
}

/// Metadata about a mod.
#[derive(Debug, Clone)]
pub struct ModInfo {
    /// Nexus Mods mod ID.
    pub id: Option<String>,
    /// Nexus Mods download ID.
    pub download_id: Option<String>,
    /// Display name of the mod.
    pub name: String,
    /// Archive filename.
    pub file_name: String,
    /// Human-readable version string.
    pub version: String,
    /// Parsed version, if the version string yields one.
    pub machine_version: Option<ModVersion>,
    /// Mod author.
    pub author: Option<String>,
    /// Mod description.
    pub description: Option<String>,
    /// Nexus Mods category ID.
    pub category_id: Option<i32>,
    /// User-assigned custom category.
    pub custom_category_id: Option<i32>,
    /// Mod website URL, in its serialized form.
    pub website: Option<String>,
    /// When the mod was downloaded.
    pub download_date: Option<Timestamp>,
    /// When the mod was installed.
    pub install_date: Option<Timestamp>,
    /// Whether the user has endorsed this mod.
    pub is_endorsed: Option<bool>,
    /// Position in mod load order.
    pub load_order: Option<i32>,
    /// Last known version from Nexus Mods, for update checking.
    pub last_known_version: Option<String>,
    /// Screenshot or thumbnail image data.
    pub screenshot: Option<Vec<u8>>,
    /// Whether to warn the user about new versions.
    pub update_warning_enabled: bool,
    /// Whether to check for updates automatically.
    pub update_checks_enabled: bool,
    /// Staging area for a new load order position during reordering.
    pub new_load_order: Option<i32>,
}

/// The mathematical content of a `ModInfo`: its text as character sequences
/// and its bytes as a byte sequence.
pub struct ModInfoView {
    pub id: Option<Seq<char>>,
    pub download_id: Option<Seq<char>>,
    pub name: Seq<char>,
    pub file_name: Seq<char>,
    pub version: Seq<char>,
    pub machine_version: Option<ModVersion>,
    pub author: Option<Seq<char>>,
    pub description: Option<Seq<char>>,
    pub category_id: Option<i32>,
    pub custom_category_id: Option<i32>,
    pub website: Option<Seq<char>>,
    pub download_date: Option<Timestamp>,
    pub install_date: Option<Timestamp>,
    pub is_endorsed: Option<bool>,
    pub load_order: Option<i32>,
    pub last_known_version: Option<Seq<char>>,
    pub screenshot: Option<Seq<u8>>,
    pub update_warning_enabled: bool,
    pub update_checks_enabled: bool,
    pub new_load_order: Option<i32>,
}

/// The view of an optional text.
pub open spec fn text_view(o: Option<String>) -> Option<Seq<char>> {
    match o {
        Some(s) => Some(s@),
        None => None,
    }
}

/// The view of optional bytes.
pub open spec fn bytes_view(o: Option<Vec<u8>>) -> Option<Seq<u8>> {
    match o {
        Some(v) => Some(v@),
        None => None,
    }
}

impl View for ModInfo {
    type V = ModInfoView;

    open spec fn view(&self) -> ModInfoView {
        ModInfoView {
            id: text_view(self.id),
            download_id: text_view(self.download_id),
            name: self.name@,
            file_name: self.file_name@,
            version: self.version@,
            machine_version: self.machine_version,
            author: text_view(self.author),
            description: text_view(self.description),
            category_id: self.category_id,
            custom_category_id: self.custom_category_id,
            website: text_view(self.website),
            download_date: self.download_date,
            install_date: self.install_date,
            is_endorsed: self.is_endorsed,
            load_order: self.load_order,
            last_known_version: text_view(self.last_known_version),
            screenshot: bytes_view(self.screenshot),
            update_warning_enabled: self.update_warning_enabled,
            update_checks_enabled: self.update_checks_enabled,
            new_load_order: self.new_load_order,
        }
    }
}

/// Metadata with every field empty, absent or false.
pub open spec fn blank_info() -> ModInfoView {
    ModInfoView {
        id: None,
        download_id: None,
        name: Seq::empty(),
        file_name: Seq::empty(),
        version: Seq::empty(),
        machine_version: None,
        author: None,
        description: None,
        category_id: None,
        custom_category_id: None,
        website: None,
        download_date: None,
        install_date: None,
        is_endorsed: None,
        load_order: None,
        last_known_version: None,
        screenshot: None,
        update_warning_enabled: false,
        update_checks_enabled: false,
        new_load_order: None,
    }
}

/// Whether the last known version, read by the version heuristic, is newer
/// than the parsed version.
pub open spec fn update_available(info: ModInfoView) -> bool {
    match (info.machine_version, info.last_known_version) {
        (Some(current), Some(latest)) => match version_of(latest) {
            Some(l) => version_lt(current, l),
            None => false,
        },
        _ => false,
    }
}

/// The one-line description of a mod: its name, then ` v` and the version
/// where there is one, then ` by ` and the author where there is one.
pub open spec fn description_line(info: ModInfoView) -> Seq<char> {
    let v = if info.version.len() > 0 {
        " v"@ + info.version
    } else {
        Seq::empty()
    };
    let a = match info.author {
        Some(a) => " by "@ + a,
        None => Seq::empty(),
    };
    info.name + v + a
}

/// An optional field after a merge: the source's value when forced or when
/// the destination has none.
pub open spec fn merge_opt<T>(dst: Option<T>, src: Option<T>, force: bool) -> Option<T> {
    if force || dst is None {
        src
    } else {
        dst
    }
}

/// A text field after a merge: the source's text when forced or when the
/// destination is empty.
pub open spec fn merge_text(dst: Seq<char>, src: Seq<char>, force: bool) -> Seq<char> {
    if force || dst.len() == 0 {
        src
    } else {
        dst
    }
}

/// A flag after a merge: the source's flag only when forced.
pub open spec fn merge_flag(dst: bool, src: bool, force: bool) -> bool {
    if force {
        src
    } else {
        dst
    }
}

/// The metadata `dst` after taking values from `src`, field by field.
pub open spec fn merged(dst: ModInfoView, src: ModInfoView, force: bool) -> ModInfoView {
    ModInfoView {
        id: merge_opt(dst.id, src.id, force),
        download_id: merge_opt(dst.download_id, src.download_id, force),
        name: merge_text(dst.name, src.name, force),
        file_name: merge_text(dst.file_name, src.file_name, force),
        version: merge_text(dst.version, src.version, force),
        machine_version: merge_opt(dst.machine_version, src.machine_version, force),
        author: merge_opt(dst.author, src.author, force),
        description: merge_opt(dst.description, src.description, force),
        category_id: merge_opt(dst.category_id, src.category_id, force),
        custom_category_id: merge_opt(dst.custom_category_id, src.custom_category_id, force),
        website: merge_opt(dst.website, src.website, force),
        download_date: merge_opt(dst.download_date, src.download_date, force),
        install_date: merge_opt(dst.install_date, src.install_date, force),
        is_endorsed: merge_opt(dst.is_endorsed, src.is_endorsed, force),
        load_order: merge_opt(dst.load_order, src.load_order, force),
        last_known_version: merge_opt(dst.last_known_version, src.last_known_version, force),
        screenshot: merge_opt(dst.screenshot, src.screenshot, force),
        update_warning_enabled: merge_flag(
            dst.update_warning_enabled,
            src.update_warning_enabled,
            force,
        ),
        update_checks_enabled: merge_flag(
            dst.update_checks_enabled,
            src.update_checks_enabled,
            force,
        ),
        new_load_order: merge_opt(dst.new_load_order, src.new_load_order, force),
    }
}

/// A copy of an optional text.
pub fn copy_text(o: &Option<String>) -> (r: Option<String>)
    ensures
        text_view(r) == text_view(*o),
{
    match o {
        Some(s) => Some(s.clone()),
        None => None,
    }
}

/// A copy of optional bytes.
pub fn copy_bytes(o: &Option<Vec<u8>>) -> (r: Option<Vec<u8>>)
    ensures
        bytes_view(r) == bytes_view(*o),
{
    match o {
        Some(v) => {
            let c = v.clone();
            assert(c@ =~= v@);
            Some(c)
        },
        None => None,
    }
}

impl ModInfo {
    /// Creates metadata with a name and an archive filename, every other
    /// field empty.
    pub fn new(name: &str, file_name: &str) -> (r: ModInfo)
        ensures
            r@ == (ModInfoView { name: name@, file_name: file_name@, ..blank_info() }),
    {
        let mut r = ModInfo::default();
        r.name = String::from_str(name);
        r.file_name = String::from_str(file_name);
        r
    }

    /// A copy of this metadata.
    pub fn duplicate(&self) -> (r: ModInfo)
        ensures
            r@ == self@,
    {
        ModInfo {
            id: copy_text(&self.id),
            download_id: copy_text(&self.download_id),
            name: self.name.clone(),
            file_name: self.file_name.clone(),
            version: self.version.clone(),
            machine_version: self.machine_version,
            author: copy_text(&self.author),
            description: copy_text(&self.description),
            category_id: self.category_id,
            custom_category_id: self.custom_category_id,
            website: copy_text(&self.website),
            download_date: self.download_date,
            install_date: self.install_date,
            is_endorsed: self.is_endorsed,
            load_order: self.load_order,
            last_known_version: copy_text(&self.last_known_version),
            screenshot: copy_bytes(&self.screenshot),
            update_warning_enabled: self.update_warning_enabled,
            update_checks_enabled: self.update_checks_enabled,
            new_load_order: self.new_load_order,
        }
    }

    /// Sets the version string.
    pub fn with_version(self, version: &str) -> (r: ModInfo)
        ensures
            r@ == (ModInfoView { version: version@, ..self@ }),
    {
        let mut r = self;
        r.version = String::from_str(version);
        r
    }

    /// Sets the author.
    pub fn with_author(self, author: &str) -> (r: ModInfo)
        ensures
            r@ == (ModInfoView { author: Some(author@), ..self@ }),
    {
        let mut r = self;
        r.author = Some(String::from_str(author));
        r
    }

    /// Sets the download ID.
    pub fn with_download_id(self, download_id: &str) -> (r: ModInfo)
        ensures
            r@ == (ModInfoView { download_id: Some(download_id@), ..self@ }),
    {
        let mut r = self;
        r.download_id = Some(String::from_str(download_id));
        r
    }

    /// Sets the description.
    pub fn with_description(self, description: &str) -> (r: ModInfo)
        ensures
            r@ == (ModInfoView { description: Some(description@), ..self@ }),
    {
        let mut r = self;
        r.description = Some(String::from_str(description));
        r
    }

    /// Sets the website, given as the URL's serialized form.
    pub fn with_website(self, url: &str) -> (r: ModInfo)
        ensures
            r@ == (ModInfoView { website: Some(url@), ..self@ }),
    {
        let mut r = self;
        r.website = Some(String::from_str(url));
        r
    }

    /// Sets the screenshot data.
    pub fn with_screenshot(self, data: Vec<u8>) -> (r: ModInfo)
        ensures
            r@ == (ModInfoView { screenshot: Some(data@), ..self@ }),
    {
        let mut r = self;
        r.screenshot = Some(data);
        r
    }

    /// Enables or disables update warnings.
    pub fn with_update_warnings(self, enabled: bool) -> (r: ModInfo)
        ensures
            r@ == (ModInfoView { update_warning_enabled: enabled, ..self@ }),
    {
        let mut r = self;
        r.update_warning_enabled = enabled;
        r
    }

    /// Enables or disables automatic update checks.
    pub fn with_update_checks(self, enabled: bool) -> (r: ModInfo)
        ensures
            r@ == (ModInfoView { update_checks_enabled: enabled, ..self@ }),
    {
        let mut r = self;
        r.update_checks_enabled = enabled;
        r
    }

    /// Reads a version from free text with the version heuristic.
    pub fn parse_version(version_str: &str) -> (r: Option<ModVersion>)
        ensures
            r == version_of(version_str@),
    {
        parse_version(version_str)
    }

    /// Reads the version string with the version heuristic and stores the
    /// result as the parsed version.
    pub fn parse_machine_version(&mut self)
        ensures
            final(self)@ == (ModInfoView { machine_version: version_of(old(self)@.version), ..old(self)@ }),
    {
        self.machine_version = parse_version(self.version.as_str());
    }

    /// Whether a newer version is known: the last known version, read by the
    /// version heuristic, is newer than the parsed version.
    pub fn has_update(&self) -> (r: bool)
        ensures
            r == update_available(self@),
    {
        match (&self.machine_version, &self.last_known_version) {
            (Some(current), Some(latest_str)) => match parse_version(latest_str.as_str()) {
                Some(latest) => current.is_older_than(&latest),
                None => false,
            },
            _ => false,
        }
    }

    /// Whether the user should hear of an update: warnings are enabled and a
    /// newer version is known.
    pub fn should_notify_update(&self) -> (r: bool)
        ensures
            r == (self.update_warning_enabled && update_available(self@)),
    {
        self.update_warning_enabled && self.has_update()
    }

    /// The one-line description: `name`, `name vVERSION`, or either followed
    /// by ` by AUTHOR`.
    pub fn to_string(&self) -> (r: String)
        ensures
            r@ == description_line(self@),
    {
        let mut r = self.name.clone();
        if self.version.as_str().unicode_len() > 0 {
            r.append(" v");
            r.append(self.version.as_str());
        }
        match &self.author {
            Some(a) => {
                r.append(" by ");
                r.append(a.as_str());
            },
            None => {},
        }
        proof {
            assert(r@ =~= description_line(self@));
        }
        r
    }

    /// Takes values from `other`, field by field: with `overwrite_all` every
    /// field is copied; without it, optional and text fields are copied only
    /// where this metadata has none or an empty one, and flags are kept.
    pub fn update_from(&mut self, other: &ModInfo, overwrite_all: bool)
        ensures
            final(self)@ == merged(old(self)@, other@, overwrite_all),
    {
        merge_text_into(&mut self.id, &other.id, overwrite_all);
        merge_text_into(&mut self.download_id, &other.download_id, overwrite_all);
        merge_string_into(&mut self.name, &other.name, overwrite_all);
        merge_string_into(&mut self.file_name, &other.file_name, overwrite_all);
        merge_string_into(&mut self.version, &other.version, overwrite_all);
        merge_copy_into(&mut self.machine_version, other.machine_version, overwrite_all);
        merge_text_into(&mut self.last_known_version, &other.last_known_version, overwrite_all);
        merge_text_into(&mut self.author, &other.author, overwrite_all);
        merge_text_into(&mut self.description, &other.description, overwrite_all);
        merge_copy_into(&mut self.category_id, other.category_id, overwrite_all);
        merge_copy_into(&mut self.custom_category_id, other.custom_category_id, overwrite_all);
        merge_text_into(&mut self.website, &other.website, overwrite_all);
        merge_copy_into(&mut self.download_date, other.download_date, overwrite_all);
        merge_copy_into(&mut self.install_date, other.install_date, overwrite_all);
        merge_copy_into(&mut self.is_endorsed, other.is_endorsed, overwrite_all);
        merge_bytes_into(&mut self.screenshot, &other.screenshot, overwrite_all);
        merge_flag_into(&mut self.update_warning_enabled, other.update_warning_enabled, overwrite_all);
        merge_flag_into(&mut self.update_checks_enabled, other.update_checks_enabled, overwrite_all);
        merge_copy_into(&mut self.load_order, other.load_order, overwrite_all);
        merge_copy_into(&mut self.new_load_order, other.new_load_order, overwrite_all);
    }
}

/// Merges an optional text field.
fn merge_text_into(dst: &mut Option<String>, src: &Option<String>, force: bool)
    ensures
        text_view(*final(dst)) == merge_opt(text_view(*old(dst)), text_view(*src), force),
{
    if force || dst.is_none() {
        *dst = copy_text(src);
    }
}

/// Merges an optional bytes field.
fn merge_bytes_into(dst: &mut Option<Vec<u8>>, src: &Option<Vec<u8>>, force: bool)
    ensures
        bytes_view(*final(dst)) == merge_opt(bytes_view(*old(dst)), bytes_view(*src), force),
{
    if force || dst.is_none() {
        *dst = copy_bytes(src);
    }
}

/// Merges an optional field of a copyable type.
fn merge_copy_into<T: Copy>(dst: &mut Option<T>, src: Option<T>, force: bool)
    ensures
        *final(dst) == merge_opt(*old(dst), src, force),
{
    if force || dst.is_none() {
        *dst = src;
    }
}

/// Merges a text field.
fn merge_string_into(dst: &mut String, src: &String, force: bool)
    ensures
        final(dst)@ == merge_text(old(dst)@, src@, force),
{
    if force || dst.as_str().unicode_len() == 0 {
        *dst = src.clone();
    }
}

/// Merges a flag.
fn merge_flag_into(dst: &mut bool, src: bool, force: bool)
    ensures
        *final(dst) == merge_flag(*old(dst), src, force),
{
    if force {
        *dst = src;
    }
}

impl Default for ModInfo {
    fn default() -> (r: ModInfo)
        ensures
            r@ == blank_info(),
    {
        ModInfo {
            id: None,
            download_id: None,
            name: String::new(),
            file_name: String::new(),
            version: String::new(),
            machine_version: None,
            author: None,
            description: None,
            category_id: None,
            custom_category_id: None,
            website: None,
            download_date: None,
            install_date: None,
            is_endorsed: None,
            load_order: None,
            last_known_version: None,
            screenshot: None,
            update_warning_enabled: false,
            update_checks_enabled: false,
            new_load_order: None,
        }
    }
}

/// Type of installation script in a mod.
#[derive(Debug, Clone, Copy, PartialEq, Eq, Structural)]
pub enum ScriptType {
    /// XML-based configuration script.
    XmlScript,
    /// Legacy ModScript format.
    ModScript,
    /// WebAssembly-based script.
    Wasm,
}

} // verus!
