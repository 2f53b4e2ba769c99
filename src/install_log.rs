//! The install log as a capability: the operations a ledger offers, which
//! any backend may implement. `InstallLedger` is the verified one.
use vstd::prelude::*;
use crate::error::InstallLogError;
use crate::ini_edit::IniEdit;
use crate::ledger::{
    begun, committed, ini_id, ini_label, is_already_claimed, is_already_registered,
    is_entry_not_found, is_known_owner, is_mod_not_found, is_registered, key_id, mod_index,
    original_owner, owner_from_top, rolled_back, value_from_top, InstallLedger, LedgerState,
    LedgerView,
};
use crate::mod_info::{bytes_view, text_view, ModInfo, ModInfoView};
use crate::ownership::{
    claim_index, holds, owners, resources_of, stack, without_owner, ClaimView,
};

verus! {

/// The operations of an installation ownership ledger: the mod registry,
/// claims on data files, INI settings and game-specific values, and
/// transactions.
/// The operations of an installation ownership ledger: the mod registry,
/// claims on data files, INI settings and game-specific values, and
/// transactions. Each is stated over the ledger's state, as
/// `InstallLedger` states it.
pub trait InstallLog: Send + Sync {
    /// What the ledger records now, and what it recorded when an active
    /// transaction began.
    spec fn state(&self) -> LedgerState;

    /// The backend's invariant, which every operation keeps.
    spec fn well_formed(&self) -> bool;

    /// Registers a mod under `mod_key`.
    fn add_mod(&mut self, mod_key: &str, info: &ModInfo) -> (r: Result<(), InstallLogError>)
        requires
            old(self).well_formed(),
        ensures
            final(self).well_formed(),
            final(self).state().saved == old(self).state().saved,
            is_registered(old(self).state().current, mod_key@) || mod_key@ == original_owner()
                ==> is_already_registered(r, mod_key@) && final(self).state() == old(self).state(),
            !is_registered(old(self).state().current, mod_key@) && mod_key@ != original_owner() ==> r is Ok
                && final(self).state().current == (LedgerView {
                mods: old(self).state().current.mods.push((mod_key@, info@)),
                ..old(self).state().current
            }),
    ;

    /// Replaces the metadata of a registered mod.
    fn replace_mod(&mut self, mod_key: &str, info: &ModInfo) -> (r: Result<(), InstallLogError>)
        requires
            old(self).well_formed(),
        ensures
            final(self).well_formed(),
            final(self).state().saved == old(self).state().saved,
            !is_registered(old(self).state().current, mod_key@) ==> is_mod_not_found(r, mod_key@)
                && final(self).state() == old(self).state(),
            is_registered(old(self).state().current, mod_key@) ==> r is Ok && final(self).state().current == (
            LedgerView {
                mods: old(self).state().current.mods.update(
                    mod_index(old(self).state().current, mod_key@),
                    (mod_key@, info@),
                ),
                ..old(self).state().current
            }),
    ;

    /// Removes a registered mod and every claim it holds.
    fn remove_mod(&mut self, mod_key: &str) -> (r: Result<(), InstallLogError>)
        requires
            old(self).well_formed(),
        ensures
            final(self).well_formed(),
            final(self).state().saved == old(self).state().saved,
            !is_registered(old(self).state().current, mod_key@) ==> is_mod_not_found(r, mod_key@)
                && final(self).state() == old(self).state(),
            is_registered(old(self).state().current, mod_key@) ==> r is Ok && final(self).state().current == (
            LedgerView {
                mods: old(self).state().current.mods.remove(mod_index(old(self).state().current, mod_key@)),
                files: without_owner(old(self).state().current.files, mod_key@),
                inis: without_owner(old(self).state().current.inis, mod_key@),
                gsvs: without_owner(old(self).state().current.gsvs, mod_key@),
                ..old(self).state().current
            }),
    ;

    /// The metadata of a mod, if it is registered.
    fn get_mod(&self, mod_key: &str) -> (r: Option<ModInfo>)
        requires
            self.well_formed(),
        ensures
            r is Some <==> is_registered(self.state().current, mod_key@),
            r matches Some(info) ==> info@ == self.state().current.mods[mod_index(
                self.state().current,
                mod_key@,
            )].1,
    ;

    /// The metadata of every registered mod.
    fn active_mods(&self) -> (r: Vec<ModInfo>)
        ensures
            r@.map_values(|m: ModInfo| m@) == self.state().current.mods.map_values(
                |e: (Seq<char>, ModInfoView)| e.1,
            ),
    ;

    /// Records that a mod installed a data file.
    fn add_data_file(&mut self, mod_key: &str, file_path: &str) -> (r: Result<(), InstallLogError>)
        requires
            old(self).well_formed(),
            old(self).state().current.sequence_counter < u64::MAX,
        ensures
            final(self).well_formed(),
            final(self).state().saved == old(self).state().saved,
            !is_registered(old(self).state().current, mod_key@) ==> is_mod_not_found(r, mod_key@)
                && final(self).state() == old(self).state(),
            is_registered(old(self).state().current, mod_key@) && holds(
                old(self).state().current.files,
                key_id(file_path@),
                mod_key@,
            ) ==> is_already_claimed(r, file_path@) && final(self).state() == old(self).state(),
            is_registered(old(self).state().current, mod_key@) && !holds(
                old(self).state().current.files,
                key_id(file_path@),
                mod_key@,
            ) ==> r is Ok && final(self).state().current == (LedgerView {
                files: old(self).state().current.files.push(
                    ClaimView {
                        resource: seq![file_path@],
                        owner: mod_key@,
                        value: (),
                        sequence: old(self).state().current.sequence_counter,
                    },
                ),
                sequence_counter: (old(self).state().current.sequence_counter + 1) as u64,
                ..old(self).state().current
            }),
    ;

    /// Removes a mod's claim on a data file.
    fn remove_data_file(&mut self, mod_key: &str, file_path: &str) -> (r: Result<(), InstallLogError>)
        requires
            old(self).well_formed(),
        ensures
            final(self).well_formed(),
            final(self).state().saved == old(self).state().saved,
            !is_known_owner(old(self).state().current, mod_key@) ==> is_mod_not_found(r, mod_key@)
                && final(self).state() == old(self).state(),
            is_known_owner(old(self).state().current, mod_key@) && !holds(
                old(self).state().current.files,
                key_id(file_path@),
                mod_key@,
            ) ==> is_entry_not_found(r, file_path@) && final(self).state() == old(self).state(),
            is_known_owner(old(self).state().current, mod_key@) && holds(
                old(self).state().current.files,
                key_id(file_path@),
                mod_key@,
            ) ==> r is Ok && final(self).state().current == (LedgerView {
                files: old(self).state().current.files.remove(
                    claim_index(old(self).state().current.files, key_id(file_path@), mod_key@),
                ),
                ..old(self).state().current
            }),
    ;

    /// The owner of the newest claim on a data file.
    fn get_current_file_owner(&self, file_path: &str) -> (r: Option<String>)
        ensures
            text_view(r) == owner_from_top(self.state().current.files, key_id(file_path@), 0),
    ;

    /// The owner of the second newest claim on a data file.
    fn get_previous_file_owner(&self, file_path: &str) -> (r: Option<String>)
        ensures
            text_view(r) == owner_from_top(self.state().current.files, key_id(file_path@), 1),
    ;

    /// Records that a data file existed before any mod changed it.
    fn log_original_data_file(&mut self, file_path: &str) -> (r: Result<(), InstallLogError>)
        requires
            old(self).well_formed(),
            old(self).state().current.sequence_counter < u64::MAX,
        ensures
            final(self).well_formed(),
            final(self).state().saved == old(self).state().saved,
            stack(old(self).state().current.files, key_id(file_path@)).len() > 0 ==> is_already_claimed(
                r,
                file_path@,
            ) && final(self).state() == old(self).state(),
            stack(old(self).state().current.files, key_id(file_path@)).len() == 0 ==> r is Ok
                && final(self).state().current == (LedgerView {
                files: old(self).state().current.files.push(
                    ClaimView {
                        resource: seq![file_path@],
                        owner: original_owner(),
                        value: (),
                        sequence: old(self).state().current.sequence_counter,
                    },
                ),
                sequence_counter: (old(self).state().current.sequence_counter + 1) as u64,
                ..old(self).state().current
            }),
    ;

    /// The data files a mod claimed.
    fn get_installed_mod_files(&self, mod_key: &str) -> (r: Result<Vec<String>, InstallLogError>)
        ensures
            !is_known_owner(self.state().current, mod_key@) ==> is_mod_not_found(r, mod_key@),
            is_known_owner(self.state().current, mod_key@) ==> (r matches Ok(v) && v@.map_values(
                |s: String| seq![s@],
            ) == resources_of(self.state().current.files, mod_key@)),
    ;

    /// The owners of the claims on a data file, oldest first.
    fn get_file_installers(&self, file_path: &str) -> (r: Vec<String>)
        ensures
            r@.map_values(|s: String| s@) == owners(stack(self.state().current.files, key_id(file_path@))),
    ;

    /// Records that a mod set an INI setting.
    fn add_ini_edit(&mut self, mod_key: &str, edit: &IniEdit, value: &str) -> (r: Result<(), InstallLogError>)
        requires
            old(self).well_formed(),
            old(self).state().current.sequence_counter < u64::MAX,
        ensures
            final(self).well_formed(),
            final(self).state().saved == old(self).state().saved,
            !is_registered(old(self).state().current, mod_key@) ==> is_mod_not_found(r, mod_key@)
                && final(self).state() == old(self).state(),
            is_registered(old(self).state().current, mod_key@) && holds(
                old(self).state().current.inis,
                ini_id(*edit),
                mod_key@,
            ) ==> is_already_claimed(r, ini_label(*edit)) && final(self).state() == old(self).state(),
            is_registered(old(self).state().current, mod_key@) && !holds(
                old(self).state().current.inis,
                ini_id(*edit),
                mod_key@,
            ) ==> r is Ok && final(self).state().current == (LedgerView {
                inis: old(self).state().current.inis.push(
                    ClaimView {
                        resource: seq![edit.file@, edit.section@, edit.key@],
                        owner: mod_key@,
                        value: value@,
                        sequence: old(self).state().current.sequence_counter,
                    },
                ),
                sequence_counter: (old(self).state().current.sequence_counter + 1) as u64,
                ..old(self).state().current
            }),
    ;

    /// Replaces the value a mod recorded for an INI setting.
    fn replace_ini_edit(&mut self, mod_key: &str, edit: &IniEdit, value: &str) -> (r: Result<(), InstallLogError>)
        requires
            old(self).well_formed(),
        ensures
            final(self).well_formed(),
            final(self).state().saved == old(self).state().saved,
            !is_known_owner(old(self).state().current, mod_key@) ==> is_mod_not_found(r, mod_key@)
                && final(self).state() == old(self).state(),
            is_known_owner(old(self).state().current, mod_key@) && !holds(
                old(self).state().current.inis,
                ini_id(*edit),
                mod_key@,
            ) ==> is_entry_not_found(r, ini_label(*edit)) && final(self).state() == old(self).state(),
            is_known_owner(old(self).state().current, mod_key@) && holds(
                old(self).state().current.inis,
                ini_id(*edit),
                mod_key@,
            ) ==> r is Ok && final(self).state().current == (LedgerView {
                inis: old(self).state().current.inis.update(
                    claim_index(old(self).state().current.inis, ini_id(*edit), mod_key@),
                    ClaimView {
                        value: value@,
                        ..old(self).state().current.inis[claim_index(
                            old(self).state().current.inis,
                            ini_id(*edit),
                            mod_key@,
                        )]
                    },
                ),
                ..old(self).state().current
            }),
    ;

    /// Removes a mod's claim on an INI setting.
    fn remove_ini_edit(&mut self, mod_key: &str, edit: &IniEdit) -> (r: Result<(), InstallLogError>)
        requires
            old(self).well_formed(),
        ensures
            final(self).well_formed(),
            final(self).state().saved == old(self).state().saved,
            !is_known_owner(old(self).state().current, mod_key@) ==> is_mod_not_found(r, mod_key@)
                && final(self).state() == old(self).state(),
            is_known_owner(old(self).state().current, mod_key@) && !holds(
                old(self).state().current.inis,
                ini_id(*edit),
                mod_key@,
            ) ==> is_entry_not_found(r, ini_label(*edit)) && final(self).state() == old(self).state(),
            is_known_owner(old(self).state().current, mod_key@) && holds(
                old(self).state().current.inis,
                ini_id(*edit),
                mod_key@,
            ) ==> r is Ok && final(self).state().current == (LedgerView {
                inis: old(self).state().current.inis.remove(
                    claim_index(old(self).state().current.inis, ini_id(*edit), mod_key@),
                ),
                ..old(self).state().current
            }),
    ;

    /// The owner of the newest claim on an INI setting.
    fn get_current_ini_edit_owner(&self, edit: &IniEdit) -> (r: Option<String>)
        ensures
            text_view(r) == owner_from_top(self.state().current.inis, ini_id(*edit), 0),
    ;

    /// The value of the second newest claim on an INI setting.
    fn get_previous_ini_value(&self, edit: &IniEdit) -> (r: Option<String>)
        ensures
            text_view(r) == value_from_top(self.state().current.inis, ini_id(*edit), 1),
    ;

    /// Records the value of an INI setting before any mod changed it.
    fn log_original_ini_value(&mut self, edit: &IniEdit, value: &str) -> (r: Result<(), InstallLogError>)
        requires
            old(self).well_formed(),
            old(self).state().current.sequence_counter < u64::MAX,
        ensures
            final(self).well_formed(),
            final(self).state().saved == old(self).state().saved,
            stack(old(self).state().current.inis, ini_id(*edit)).len() > 0 ==> is_already_claimed(r, ini_label(*edit))
                && final(self).state() == old(self).state(),
            stack(old(self).state().current.inis, ini_id(*edit)).len() == 0 ==> r is Ok
                && final(self).state().current == (LedgerView {
                inis: old(self).state().current.inis.push(
                    ClaimView {
                        resource: seq![edit.file@, edit.section@, edit.key@],
                        owner: original_owner(),
                        value: value@,
                        sequence: old(self).state().current.sequence_counter,
                    },
                ),
                sequence_counter: (old(self).state().current.sequence_counter + 1) as u64,
                ..old(self).state().current
            }),
    ;

    /// The INI settings a mod claimed.
    fn get_installed_ini_edits(&self, mod_key: &str) -> (r: Result<Vec<IniEdit>, InstallLogError>)
        ensures
            !is_known_owner(self.state().current, mod_key@) ==> is_mod_not_found(r, mod_key@),
            is_known_owner(self.state().current, mod_key@) ==> (r matches Ok(v) && v@.map_values(
                |k: IniEdit| seq![k.file@, k.section@, k.key@],
            ) == resources_of(self.state().current.inis, mod_key@)),
    ;

    /// The owners of the claims on an INI setting, oldest first.
    fn get_ini_edit_installers(&self, edit: &IniEdit) -> (r: Vec<String>)
        ensures
            r@.map_values(|s: String| s@) == owners(stack(self.state().current.inis, ini_id(*edit))),
    ;

    /// Records that a mod set a game-specific value.
    fn add_gsv_edit(&mut self, mod_key: &str, gsv_key: &str, value: &[u8]) -> (r: Result<(), InstallLogError>)
        requires
            old(self).well_formed(),
            old(self).state().current.sequence_counter < u64::MAX,
        ensures
            final(self).well_formed(),
            final(self).state().saved == old(self).state().saved,
            !is_registered(old(self).state().current, mod_key@) ==> is_mod_not_found(r, mod_key@)
                && final(self).state() == old(self).state(),
            is_registered(old(self).state().current, mod_key@) && holds(
                old(self).state().current.gsvs,
                key_id(gsv_key@),
                mod_key@,
            ) ==> is_already_claimed(r, gsv_key@) && final(self).state() == old(self).state(),
            is_registered(old(self).state().current, mod_key@) && !holds(
                old(self).state().current.gsvs,
                key_id(gsv_key@),
                mod_key@,
            ) ==> r is Ok && final(self).state().current == (LedgerView {
                gsvs: old(self).state().current.gsvs.push(
                    ClaimView {
                        resource: seq![gsv_key@],
                        owner: mod_key@,
                        value: value@,
                        sequence: old(self).state().current.sequence_counter,
                    },
                ),
                sequence_counter: (old(self).state().current.sequence_counter + 1) as u64,
                ..old(self).state().current
            }),
    ;

    /// Replaces the value a mod recorded for a game-specific value.
    fn replace_gsv_edit(&mut self, mod_key: &str, gsv_key: &str, value: &[u8]) -> (r: Result<(), InstallLogError>)
        requires
            old(self).well_formed(),
        ensures
            final(self).well_formed(),
            final(self).state().saved == old(self).state().saved,
            !is_known_owner(old(self).state().current, mod_key@) ==> is_mod_not_found(r, mod_key@)
                && final(self).state() == old(self).state(),
            is_known_owner(old(self).state().current, mod_key@) && !holds(
                old(self).state().current.gsvs,
                key_id(gsv_key@),
                mod_key@,
            ) ==> is_entry_not_found(r, gsv_key@) && final(self).state() == old(self).state(),
            is_known_owner(old(self).state().current, mod_key@) && holds(
                old(self).state().current.gsvs,
                key_id(gsv_key@),
                mod_key@,
            ) ==> r is Ok && final(self).state().current == (LedgerView {
                gsvs: old(self).state().current.gsvs.update(
                    claim_index(old(self).state().current.gsvs, key_id(gsv_key@), mod_key@),
                    ClaimView {
                        value: value@,
                        ..old(self).state().current.gsvs[claim_index(
                            old(self).state().current.gsvs,
                            key_id(gsv_key@),
                            mod_key@,
                        )]
                    },
                ),
                ..old(self).state().current
            }),
    ;

    /// Removes a mod's claim on a game-specific value.
    fn remove_gsv_edit(&mut self, mod_key: &str, gsv_key: &str) -> (r: Result<(), InstallLogError>)
        requires
            old(self).well_formed(),
        ensures
            final(self).well_formed(),
            final(self).state().saved == old(self).state().saved,
            !is_known_owner(old(self).state().current, mod_key@) ==> is_mod_not_found(r, mod_key@)
                && final(self).state() == old(self).state(),
            is_known_owner(old(self).state().current, mod_key@) && !holds(
                old(self).state().current.gsvs,
                key_id(gsv_key@),
                mod_key@,
            ) ==> is_entry_not_found(r, gsv_key@) && final(self).state() == old(self).state(),
            is_known_owner(old(self).state().current, mod_key@) && holds(
                old(self).state().current.gsvs,
                key_id(gsv_key@),
                mod_key@,
            ) ==> r is Ok && final(self).state().current == (LedgerView {
                gsvs: old(self).state().current.gsvs.remove(
                    claim_index(old(self).state().current.gsvs, key_id(gsv_key@), mod_key@),
                ),
                ..old(self).state().current
            }),
    ;

    /// The owner of the newest claim on a game-specific value.
    fn get_current_gsv_edit_owner(&self, gsv_key: &str) -> (r: Option<String>)
        ensures
            text_view(r) == owner_from_top(self.state().current.gsvs, key_id(gsv_key@), 0),
    ;

    /// The value of the second newest claim on a game-specific value.
    fn get_previous_gsv_value(&self, gsv_key: &str) -> (r: Option<Vec<u8>>)
        ensures
            bytes_view(r) == value_from_top(self.state().current.gsvs, key_id(gsv_key@), 1),
    ;

    /// Records a game-specific value before any mod changed it.
    fn log_original_gsv_value(&mut self, gsv_key: &str, value: &[u8]) -> (r: Result<(), InstallLogError>)
        requires
            old(self).well_formed(),
            old(self).state().current.sequence_counter < u64::MAX,
        ensures
            final(self).well_formed(),
            final(self).state().saved == old(self).state().saved,
            stack(old(self).state().current.gsvs, key_id(gsv_key@)).len() > 0 ==> is_already_claimed(r, gsv_key@)
                && final(self).state() == old(self).state(),
            stack(old(self).state().current.gsvs, key_id(gsv_key@)).len() == 0 ==> r is Ok
                && final(self).state().current == (LedgerView {
                gsvs: old(self).state().current.gsvs.push(
                    ClaimView {
                        resource: seq![gsv_key@],
                        owner: original_owner(),
                        value: value@,
                        sequence: old(self).state().current.sequence_counter,
                    },
                ),
                sequence_counter: (old(self).state().current.sequence_counter + 1) as u64,
                ..old(self).state().current
            }),
    ;

    /// The game-specific value keys a mod claimed.
    fn get_installed_gsv_edits(&self, mod_key: &str) -> (r: Result<Vec<String>, InstallLogError>)
        ensures
            !is_known_owner(self.state().current, mod_key@) ==> is_mod_not_found(r, mod_key@),
            is_known_owner(self.state().current, mod_key@) ==> (r matches Ok(v) && v@.map_values(
                |k: String| seq![k@],
            ) == resources_of(self.state().current.gsvs, mod_key@)),
    ;

    /// The owners of the claims on a game-specific value, oldest first.
    fn get_gsv_edit_installers(&self, gsv_key: &str) -> (r: Vec<String>)
        ensures
            r@.map_values(|s: String| s@) == owners(stack(self.state().current.gsvs, key_id(gsv_key@))),
    ;

    /// Begins a transaction.
    fn begin_transaction(&mut self) -> (r: Result<(), InstallLogError>)
        requires
            old(self).well_formed(),
        ensures
            final(self).well_formed(),
            begun(old(self).state()) is None ==> (r matches Err(InstallLogError::TransactionAlreadyActive))
                && final(self).state() == old(self).state(),
            begun(old(self).state()) matches Some(s) ==> r is Ok && final(self).state() == s,
    ;

    /// Commits the active transaction.
    fn commit_transaction(&mut self) -> (r: Result<(), InstallLogError>)
        requires
            old(self).well_formed(),
        ensures
            final(self).well_formed(),
            committed(old(self).state()) is None ==> (r matches Err(InstallLogError::NoActiveTransaction))
                && final(self).state() == old(self).state(),
            committed(old(self).state()) matches Some(s) ==> r is Ok && final(self).state() == s,
    ;

    /// Rolls back the active transaction.
    fn rollback_transaction(&mut self) -> (r: Result<(), InstallLogError>)
        requires
            old(self).well_formed(),
        ensures
            final(self).well_formed(),
            rolled_back(old(self).state()) is None ==> (r matches Err(InstallLogError::NoActiveTransaction))
                && final(self).state() == old(self).state(),
            rolled_back(old(self).state()) matches Some(s) ==> r is Ok && final(self).state() == s,
    ;

    /// A point-in-time copy of what the ledger records, with no transaction
    /// active.
    fn backup(&self) -> (r: Self) where Self: Sized
        requires
            self.well_formed(),
        ensures
            r.well_formed(),
            r.state() == (LedgerState { current: self.state().current, saved: None }),
    ;
}

impl InstallLog for InstallLedger {
    open spec fn state(&self) -> LedgerState {
        self@
    }

    open spec fn well_formed(&self) -> bool {
        self.wf()
    }

    fn backup(&self) -> (r: InstallLedger) {
        InstallLedger::backup(self)
    }

    fn add_mod(&mut self, mod_key: &str, info: &ModInfo) -> Result<(), InstallLogError> {
        InstallLedger::add_mod(self, mod_key, info)
    }

    fn replace_mod(&mut self, mod_key: &str, info: &ModInfo) -> Result<(), InstallLogError> {
        InstallLedger::replace_mod(self, mod_key, info)
    }

    fn remove_mod(&mut self, mod_key: &str) -> Result<(), InstallLogError> {
        InstallLedger::remove_mod(self, mod_key)
    }

    fn get_mod(&self, mod_key: &str) -> Option<ModInfo> {
        InstallLedger::get_mod(self, mod_key)
    }

    fn active_mods(&self) -> Vec<ModInfo> {
        InstallLedger::active_mods(self)
    }

    fn add_data_file(&mut self, mod_key: &str, file_path: &str) -> Result<(), InstallLogError> {
        InstallLedger::add_data_file(self, mod_key, file_path)
    }

    fn remove_data_file(&mut self, mod_key: &str, file_path: &str) -> Result<(), InstallLogError> {
        InstallLedger::remove_data_file(self, mod_key, file_path)
    }

    fn get_current_file_owner(&self, file_path: &str) -> Option<String> {
        InstallLedger::get_current_file_owner(self, file_path)
    }

    fn get_previous_file_owner(&self, file_path: &str) -> Option<String> {
        InstallLedger::get_previous_file_owner(self, file_path)
    }

    fn log_original_data_file(&mut self, file_path: &str) -> Result<(), InstallLogError> {
        InstallLedger::log_original_data_file(self, file_path)
    }

    fn get_installed_mod_files(&self, mod_key: &str) -> Result<Vec<String>, InstallLogError> {
        InstallLedger::get_installed_mod_files(self, mod_key)
    }

    fn get_file_installers(&self, file_path: &str) -> Vec<String> {
        InstallLedger::get_file_installers(self, file_path)
    }

    fn add_ini_edit(&mut self, mod_key: &str, edit: &IniEdit, value: &str) -> Result<(), InstallLogError> {
        InstallLedger::add_ini_edit(self, mod_key, edit, value)
    }

    fn replace_ini_edit(&mut self, mod_key: &str, edit: &IniEdit, value: &str) -> Result<(), InstallLogError> {
        InstallLedger::replace_ini_edit(self, mod_key, edit, value)
    }

    fn remove_ini_edit(&mut self, mod_key: &str, edit: &IniEdit) -> Result<(), InstallLogError> {
        InstallLedger::remove_ini_edit(self, mod_key, edit)
    }

    fn get_current_ini_edit_owner(&self, edit: &IniEdit) -> Option<String> {
        InstallLedger::get_current_ini_edit_owner(self, edit)
    }

    fn get_previous_ini_value(&self, edit: &IniEdit) -> Option<String> {
        InstallLedger::get_previous_ini_value(self, edit)
    }

    fn log_original_ini_value(&mut self, edit: &IniEdit, value: &str) -> Result<(), InstallLogError> {
        InstallLedger::log_original_ini_value(self, edit, value)
    }

    fn get_installed_ini_edits(&self, mod_key: &str) -> Result<Vec<IniEdit>, InstallLogError> {
        InstallLedger::get_installed_ini_edits(self, mod_key)
    }

    fn get_ini_edit_installers(&self, edit: &IniEdit) -> Vec<String> {
        InstallLedger::get_ini_edit_installers(self, edit)
    }

    fn add_gsv_edit(&mut self, mod_key: &str, gsv_key: &str, value: &[u8]) -> Result<(), InstallLogError> {
        InstallLedger::add_gsv_edit(self, mod_key, gsv_key, value)
    }

    fn replace_gsv_edit(&mut self, mod_key: &str, gsv_key: &str, value: &[u8]) -> Result<(), InstallLogError> {
        InstallLedger::replace_gsv_edit(self, mod_key, gsv_key, value)
    }

    fn remove_gsv_edit(&mut self, mod_key: &str, gsv_key: &str) -> Result<(), InstallLogError> {
        InstallLedger::remove_gsv_edit(self, mod_key, gsv_key)
    }

    fn get_current_gsv_edit_owner(&self, gsv_key: &str) -> Option<String> {
        InstallLedger::get_current_gsv_edit_owner(self, gsv_key)
    }

    fn get_previous_gsv_value(&self, gsv_key: &str) -> Option<Vec<u8>> {
        InstallLedger::get_previous_gsv_value(self, gsv_key)
    }

    fn log_original_gsv_value(&mut self, gsv_key: &str, value: &[u8]) -> Result<(), InstallLogError> {
        InstallLedger::log_original_gsv_value(self, gsv_key, value)
    }

    fn get_installed_gsv_edits(&self, mod_key: &str) -> Result<Vec<String>, InstallLogError> {
        InstallLedger::get_installed_gsv_edits(self, mod_key)
    }

    fn get_gsv_edit_installers(&self, gsv_key: &str) -> Vec<String> {
        InstallLedger::get_gsv_edit_installers(self, gsv_key)
    }

    fn begin_transaction(&mut self) -> Result<(), InstallLogError> {
        InstallLedger::begin_transaction(self)
    }

    fn commit_transaction(&mut self) -> Result<(), InstallLogError> {
        InstallLedger::commit_transaction(self)
    }

    fn rollback_transaction(&mut self) -> Result<(), InstallLogError> {
        InstallLedger::rollback_transaction(self)
    }
}

} // verus!
