//! The installation ownership ledger: registered mods, their claims on data
//! files, INI settings and game-specific values, and transactions over all
//! of it.
use vstd::prelude::*;
use vstd::slice::slice_to_vec;
use crate::error::InstallLogError;
use crate::fold::{folded, same_text};
use crate::ini_edit::IniEdit;
use crate::mod_info::{bytes_view, text_view, ModInfo, ModInfoView};
use crate::ownership::{
    claim_index, claims_wf, holds, identity_of, owners, resources_of, stack, without_owner,
    Claim, ClaimView, OwnershipTable, ResourceKey,
};

verus! {

/// The owner under which a resource's state from before any mod touched it
/// is recorded.
pub const ORIGINAL_VALUES_KEY: &'static str = "<<ORIGINAL_VALUES>>";

/// A registered mod.
struct ModEntry {
    key: String,
    info: ModInfo,
}

impl ModEntry {
    closed spec fn view(&self) -> (Seq<char>, ModInfoView) {
        (self.key@, self.info@)
    }
}

/// Everything the ledger records at one moment.
pub struct LedgerView {
    /// Registered mods, in registration order, each with its metadata.
    pub mods: Seq<(Seq<char>, ModInfoView)>,
    /// Claims on data files.
    pub files: Seq<ClaimView<()>>,
    /// Claims on INI settings, each with the value the owner set.
    pub inis: Seq<ClaimView<Seq<char>>>,
    /// Claims on game-specific values, each with the bytes the owner set.
    pub gsvs: Seq<ClaimView<Seq<u8>>>,
    /// The next sequence number to hand out.
    pub sequence_counter: u64,
}

/// The ledger's state: what it records now, and, while a transaction is
/// active, what it recorded when the transaction began.
pub struct LedgerState {
    pub current: LedgerView,
    pub saved: Option<LedgerView>,
}

/// The owner key of original values, as text.
pub open spec fn original_owner() -> Seq<char> {
    ORIGINAL_VALUES_KEY@
}

/// The state after `begin_transaction`: what is recorded now is saved.
/// `None` where a transaction is already active.
pub open spec fn begun(s: LedgerState) -> Option<LedgerState> {
    match s.saved {
        Some(_) => None,
        None => Some(LedgerState { current: s.current, saved: Some(s.current) }),
    }
}

/// The state after `commit_transaction`: the saved state is dropped.
/// `None` where no transaction is active.
pub open spec fn committed(s: LedgerState) -> Option<LedgerState> {
    match s.saved {
        Some(_) => Some(LedgerState { current: s.current, saved: None }),
        None => None,
    }
}

/// The state after `rollback_transaction`: the saved state is recorded
/// again. `None` where no transaction is active.
pub open spec fn rolled_back(s: LedgerState) -> Option<LedgerState> {
    match s.saved {
        Some(v) => Some(LedgerState { current: v, saved: None }),
        None => None,
    }
}

/// Whether `k` is a registered mod.
pub open spec fn is_registered(v: LedgerView, k: Seq<char>) -> bool {
    exists|i: int| 0 <= i < v.mods.len() && v.mods[i].0 == k
}

/// The position of the mod `k` in the registry, where it is registered.
pub open spec fn mod_index(v: LedgerView, k: Seq<char>) -> int {
    choose|i: int| 0 <= i < v.mods.len() && v.mods[i].0 == k
}

/// Whether `k` may own claims: a registered mod, or the original-values
/// owner.
pub open spec fn is_known_owner(v: LedgerView, k: Seq<char>) -> bool {
    is_registered(v, k) || k == original_owner()
}

/// Original values sit below every other claim on their resource: no
/// claim on a resource comes before its original-values claim.
pub open spec fn originals_first<M>(cs: Seq<ClaimView<M>>) -> bool {
    forall|i: int, j: int|
        #![trigger cs[i], cs[j]]
        0 <= i < j < cs.len() && identity_of(cs[i].resource) == identity_of(cs[j].resource)
            ==> cs[j].owner != original_owner()
}

/// Every claim of `cs` is owned by a known owner and numbered below the
/// counter, and original values come first on each resource.
pub open spec fn claims_consistent<M>(v: LedgerView, cs: Seq<ClaimView<M>>) -> bool {
    &&& claims_wf(cs)
    &&& originals_first(cs)
    &&& forall|i: int| 0 <= i < cs.len() ==> #[trigger] cs[i].sequence < v.sequence_counter
    &&& forall|i: int| 0 <= i < cs.len() ==> is_known_owner(v, #[trigger] cs[i].owner)
}

/// The ledger's invariant: mod keys are unique and none is the
/// original-values owner; every claim is numbered below the counter, owned
/// by a known owner, and unique per resource and owner; sequence numbers
/// increase along each kind's claims; an original-values claim is the
/// oldest on its resource.
pub open spec fn ledger_wf(v: LedgerView) -> bool {
    &&& forall|i: int, j: int|
        0 <= i < v.mods.len() && 0 <= j < v.mods.len() && i != j ==> v.mods[i].0 != v.mods[j].0
    &&& forall|i: int| 0 <= i < v.mods.len() ==> #[trigger] v.mods[i].0 != original_owner()
    &&& claims_consistent(v, v.files)
    &&& claims_consistent(v, v.inis)
    &&& claims_consistent(v, v.gsvs)
}

/// The identity of a data file or game-specific value key.
pub open spec fn key_id(k: Seq<char>) -> Seq<Seq<u32>> {
    identity_of(seq![k])
}

/// The identity of an INI coordinate.
pub open spec fn ini_id(e: IniEdit) -> Seq<Seq<u32>> {
    identity_of(e.parts())
}

/// An INI coordinate as text: `file[section].key`.
pub open spec fn ini_label(e: IniEdit) -> Seq<char> {
    e.file@ + "["@ + e.section@ + "]."@ + e.key@
}

/// The owner `depth` places below the top of the stack of `id`: 0 is the
/// current owner, 1 the previous one.
pub open spec fn owner_from_top<M>(cs: Seq<ClaimView<M>>, id: Seq<Seq<u32>>, depth: int) -> Option<
    Seq<char>,
> {
    let st = stack(cs, id);
    if st.len() > depth {
        Some(st[st.len() - 1 - depth].owner)
    } else {
        None
    }
}

/// The value recorded `depth` places below the top of the stack of `id`.
pub open spec fn value_from_top<M>(cs: Seq<ClaimView<M>>, id: Seq<Seq<u32>>, depth: int) -> Option<
    M,
> {
    let st = stack(cs, id);
    if st.len() > depth {
        Some(st[st.len() - 1 - depth].value)
    } else {
        None
    }
}

/// `r` is the error that the mod `k` is not registered.
pub open spec fn is_mod_not_found<T>(r: Result<T, InstallLogError>, k: Seq<char>) -> bool {
    match r {
        Err(InstallLogError::ModNotFound(s)) => s@ == k,
        _ => false,
    }
}

/// `r` is the error that the mod `k` is already registered.
pub open spec fn is_already_registered<T>(r: Result<T, InstallLogError>, k: Seq<char>) -> bool {
    match r {
        Err(InstallLogError::AlreadyRegistered(s)) => s@ == k,
        _ => false,
    }
}

/// `r` is the error that the entry `t` does not exist.
pub open spec fn is_entry_not_found<T>(r: Result<T, InstallLogError>, t: Seq<char>) -> bool {
    match r {
        Err(InstallLogError::EntryNotFound(s)) => s@ == t,
        _ => false,
    }
}

/// `r` is the error that the entry `t` cannot be claimed.
pub open spec fn is_already_claimed<T>(r: Result<T, InstallLogError>, t: Seq<char>) -> bool {
    match r {
        Err(InstallLogError::AlreadyClaimed(s)) => s@ == t,
        _ => false,
    }
}

/// The records of the ledger at one moment.
struct Records {
    mods: Vec<ModEntry>,
    files: OwnershipTable<String, ()>,
    inis: OwnershipTable<IniEdit, String>,
    gsvs: OwnershipTable<String, Vec<u8>>,
    sequence_counter: u64,
}

impl Records {
    closed spec fn view(&self) -> LedgerView {
        LedgerView {
            mods: self.mods@.map_values(|e: ModEntry| e.view()),
            files: self.files.model(),
            inis: self.inis.model(),
            gsvs: self.gsvs.model(),
            sequence_counter: self.sequence_counter,
        }
    }

    fn duplicate(&self) -> (r: Records)
        ensures
            r.view() == self.view(),
    {
        let mut mods: Vec<ModEntry> = Vec::new();
        let mut i: usize = 0;
        while i < self.mods.len()
            invariant
                i <= self.mods.len(),
                mods@.len() == i,
                forall|j: int| 0 <= j < i ==> #[trigger] mods@[j].view() == self.mods@[j].view(),
            decreases self.mods.len() - i,
        {
            let e = &self.mods[i];
            mods.push(ModEntry { key: e.key.clone(), info: e.info.duplicate() });
            i = i + 1;
        }
        let r = Records {
            mods,
            files: self.files.duplicate(),
            inis: self.inis.duplicate(),
            gsvs: self.gsvs.duplicate(),
            sequence_counter: self.sequence_counter,
        };
        assert(r.view().mods =~= self.view().mods);
        r
    }

    /// The position of the mod `key`, if it is registered.
    fn find_mod(&self, key: &str) -> (r: Option<usize>)
        ensures
            r is None <==> !is_registered(self.view(), key@),
            r matches Some(i) ==> i < self.view().mods.len() && self.view().mods[i as int].0 == key@,
    {
        let mut i: usize = 0;
        while i < self.mods.len()
            invariant
                i <= self.mods.len(),
                forall|j: int| 0 <= j < i ==> #[trigger] self.view().mods[j].0 != key@,
            decreases self.mods.len() - i,
        {
            assert(self.view().mods[i as int] == self.mods@[i as int].view());
            if same_text(self.mods[i].key.as_str(), key) {
                return Some(i);
            }
            i = i + 1;
        }
        None
    }
}

/// The installation ownership ledger, held in memory.
pub struct InstallLedger {
    records: Records,
    saved: Option<Records>,
}

impl View for InstallLedger {
    type V = LedgerState;

    closed spec fn view(&self) -> LedgerState {
        LedgerState {
            current: self.records.view(),
            saved: match self.saved {
                Some(s) => Some(s.view()),
                None => None,
            },
        }
    }
}

impl InstallLedger {
    /// The invariant: what the ledger records now, and what it recorded when
    /// an active transaction began, are well formed.
    pub open spec fn wf(&self) -> bool {
        &&& ledger_wf(self@.current)
        &&& (self@.saved matches Some(s) ==> ledger_wf(s))
    }

    /// An empty ledger: no mods, no claims, counter at zero, no
    /// transaction.
    pub fn new() -> (r: InstallLedger)
        ensures
            r.wf(),
            r@.current.mods.len() == 0,
            r@.current.files.len() == 0,
            r@.current.inis.len() == 0,
            r@.current.gsvs.len() == 0,
            r@.current.sequence_counter == 0,
            r@.saved is None,
    {
        let r = InstallLedger {
            records: Records {
                mods: Vec::new(),
                files: OwnershipTable::new(),
                inis: OwnershipTable::new(),
                gsvs: OwnershipTable::new(),
                sequence_counter: 0,
            },
            saved: None,
        };
        assert(r@.current.mods =~= Seq::<(Seq<char>, ModInfoView)>::empty());
        r
    }

    /// The next sequence number the ledger will hand out.
    pub fn sequence_counter(&self) -> (r: u64)
        ensures
            r == self@.current.sequence_counter,
    {
        self.records.sequence_counter
    }

    /// Moves the sequence counter up to `at_least`, where it is lower, so
    /// that numbers handed out before, as a store records them, are not
    /// handed out again.
    pub fn advance_sequence_counter(&mut self, at_least: u64)
        requires
            old(self).wf(),
        ensures
            final(self).wf(),
            final(self)@.saved == old(self)@.saved,
            final(self)@.current == (LedgerView {
                sequence_counter: if at_least > old(self)@.current.sequence_counter {
                    at_least
                } else {
                    old(self)@.current.sequence_counter
                },
                ..old(self)@.current
            }),
    {
        if at_least > self.records.sequence_counter {
            let ghost before = self.records.view();
            self.records.sequence_counter = at_least;
            proof {
                let after = self.records.view();
                assert(after.mods == before.mods);
                assert forall|k: Seq<char>| is_known_owner(before, k) == is_known_owner(after, k) by {}
                assert(claims_consistent(after, after.files));
                assert(claims_consistent(after, after.inis));
                assert(claims_consistent(after, after.gsvs));
            }
        }
    }

    /// Whether a transaction is active.
    pub fn in_transaction(&self) -> (r: bool)
        ensures
            r == self@.saved is Some,
    {
        self.saved.is_some()
    }

    /// The registered mods with copies of their metadata, in registration
    /// order.
    pub fn mod_entries(&self) -> (r: Vec<(String, ModInfo)>)
        ensures
            r@.map_values(|e: (String, ModInfo)| (e.0@, e.1@)) == self@.current.mods,
    {
        let mut out: Vec<(String, ModInfo)> = Vec::new();
        let mut i: usize = 0;
        while i < self.records.mods.len()
            invariant
                i <= self.records.mods.len(),
                out@.len() == i,
                forall|j: int|
                    0 <= j < i ==> (#[trigger] out@[j]).0@ == self@.current.mods[j].0 && out@[j].1@
                        == self@.current.mods[j].1,
            decreases self.records.mods.len() - i,
        {
            assert(self@.current.mods[i as int] == self.records.mods@[i as int].view());
            let e = &self.records.mods[i];
            out.push((e.key.clone(), e.info.duplicate()));
            i = i + 1;
        }
        assert(out@.map_values(|e: (String, ModInfo)| (e.0@, e.1@)) =~= self@.current.mods);
        out
    }

    /// Copies of the claims on data files, oldest first.
    pub fn file_claims(&self) -> (r: Vec<Claim<String, ()>>)
        ensures
            r@.map_values(|c: Claim<String, ()>| c.model()) == self@.current.files,
    {
        self.records.files.claims()
    }

    /// Copies of the claims on INI settings, oldest first.
    pub fn ini_claims(&self) -> (r: Vec<Claim<IniEdit, String>>)
        ensures
            r@.map_values(|c: Claim<IniEdit, String>| c.model()) == self@.current.inis,
    {
        self.records.inis.claims()
    }

    /// Copies of the claims on game-specific values, oldest first.
    pub fn gsv_claims(&self) -> (r: Vec<Claim<String, Vec<u8>>>)
        ensures
            r@.map_values(|c: Claim<String, Vec<u8>>| c.model()) == self@.current.gsvs,
    {
        self.records.gsvs.claims()
    }

    // ----- transactions -----

    /// Begins a transaction: later changes can be discarded together.
    pub fn begin_transaction(&mut self) -> (r: Result<(), InstallLogError>)
        requires
            old(self).wf(),
        ensures
            final(self).wf(),
            begun(old(self)@) is None ==> (r matches Err(InstallLogError::TransactionAlreadyActive))
                && final(self)@ == old(self)@,
            begun(old(self)@) matches Some(s) ==> r is Ok && final(self)@ == s,
    {
        if self.saved.is_some() {
            return Err(InstallLogError::TransactionAlreadyActive);
        }
        self.saved = Some(self.records.duplicate());
        Ok(())
    }

    /// Commits the active transaction: its changes stay.
    pub fn commit_transaction(&mut self) -> (r: Result<(), InstallLogError>)
        requires
            old(self).wf(),
        ensures
            final(self).wf(),
            committed(old(self)@) is None ==> (r matches Err(InstallLogError::NoActiveTransaction))
                && final(self)@ == old(self)@,
            committed(old(self)@) matches Some(s) ==> r is Ok && final(self)@ == s,
    {
        if self.saved.is_none() {
            return Err(InstallLogError::NoActiveTransaction);
        }
        self.saved = None;
        Ok(())
    }

    /// Rolls back the active transaction: the ledger records again exactly
    /// what it recorded when the transaction began.
    pub fn rollback_transaction(&mut self) -> (r: Result<(), InstallLogError>)
        requires
            old(self).wf(),
        ensures
            final(self).wf(),
            rolled_back(old(self)@) is None ==> (r matches Err(InstallLogError::NoActiveTransaction))
                && final(self)@ == old(self)@,
            rolled_back(old(self)@) matches Some(s) ==> r is Ok && final(self)@ == s,
    {
        match self.saved.take() {
            None => Err(InstallLogError::NoActiveTransaction),
            Some(s) => {
                self.records = s;
                Ok(())
            },
        }
    }

    /// A copy of what the ledger records now, with no transaction active.
    pub fn backup(&self) -> (r: InstallLedger)
        requires
            self.wf(),
        ensures
            r.wf(),
            r@ == (LedgerState { current: self@.current, saved: None }),
    {
        InstallLedger { records: self.records.duplicate(), saved: None }
    }


    // ----- data files -----

    /// Records that `mod_key` installed the data file `file_path`; the mod
    /// becomes its current owner.
    pub fn add_data_file(&mut self, mod_key: &str, file_path: &str) -> (r: Result<(), InstallLogError>)
        requires
            old(self).wf(),
            old(self)@.current.sequence_counter < u64::MAX,
        ensures
            final(self).wf(),
            final(self)@.saved == old(self)@.saved,
            !is_registered(old(self)@.current, mod_key@) ==> is_mod_not_found(r, mod_key@)
                && final(self)@ == old(self)@,
            is_registered(old(self)@.current, mod_key@) && holds(
                old(self)@.current.files,
                key_id(file_path@),
                mod_key@,
            ) ==> is_already_claimed(r, file_path@) && final(self)@ == old(self)@,
            is_registered(old(self)@.current, mod_key@) && !holds(
                old(self)@.current.files,
                key_id(file_path@),
                mod_key@,
            ) ==> r is Ok && final(self)@.current == (LedgerView {
                files: old(self)@.current.files.push(
                    ClaimView {
                        resource: seq![file_path@],
                        owner: mod_key@,
                        value: (),
                        sequence: old(self)@.current.sequence_counter,
                    },
                ),
                sequence_counter: (old(self)@.current.sequence_counter + 1) as u64,
                ..old(self)@.current
            }),
    {
        if self.records.find_mod(mod_key).is_none() {
            return Err(InstallLogError::ModNotFound(String::from_str(mod_key)));
        }
        let key = String::from_str(file_path);
        if self.records.files.position(&key, mod_key).is_some() {
            return Err(InstallLogError::AlreadyClaimed(key));
        }
        let ghost before = self.records.view();
        proof {
            lemma_registered_not_original(before, mod_key@);
        }
        let seq = self.records.sequence_counter;
        self.records.files.push_claim(key, String::from_str(mod_key), (), seq);
        self.records.sequence_counter = seq + 1;
        proof {
            assert(self.records.view().files.drop_last() =~= before.files);
            lemma_counter_step(before, self.records.view());
        }
        Ok(())
    }

    /// Removes the claim of `mod_key` on the data file `file_path`;
    /// ownership falls back to the claim below it.
    pub fn remove_data_file(&mut self, mod_key: &str, file_path: &str) -> (r: Result<
        (),
        InstallLogError,
    >)
        requires
            old(self).wf(),
        ensures
            final(self).wf(),
            final(self)@.saved == old(self)@.saved,
            !is_known_owner(old(self)@.current, mod_key@) ==> is_mod_not_found(r, mod_key@)
                && final(self)@ == old(self)@,
            is_known_owner(old(self)@.current, mod_key@) && !holds(
                old(self)@.current.files,
                key_id(file_path@),
                mod_key@,
            ) ==> is_entry_not_found(r, file_path@) && final(self)@ == old(self)@,
            is_known_owner(old(self)@.current, mod_key@) && holds(
                old(self)@.current.files,
                key_id(file_path@),
                mod_key@,
            ) ==> r is Ok && final(self)@.current == (LedgerView {
                files: old(self)@.current.files.remove(
                    claim_index(old(self)@.current.files, key_id(file_path@), mod_key@),
                ),
                ..old(self)@.current
            }),
    {
        if !same_text(mod_key, ORIGINAL_VALUES_KEY) && self.records.find_mod(mod_key).is_none() {
            return Err(InstallLogError::ModNotFound(String::from_str(mod_key)));
        }
        let key = String::from_str(file_path);
        let ghost before = self.records.view();
        match self.records.files.position(&key, mod_key) {
            None => Err(InstallLogError::EntryNotFound(key)),
            Some(i) => {
                proof {
                    lemma_claim_index_unique(before.files, identity_of(key.parts()), mod_key@, i as int);
                }
                self.records.files.remove_claim(i);
                proof {
                    lemma_remove_consistent(before, before.files, i as int);
                }
                Ok(())
            },
        }
    }

    /// The current owner of the data file `file_path`: the owner of its
    /// newest claim.
    pub fn get_current_file_owner(&self, file_path: &str) -> (r: Option<String>)
        ensures
            text_view(r) == owner_from_top(self@.current.files, key_id(file_path@), 0),
    {
        let key = String::from_str(file_path);
        match self.records.files.from_top(&key, 0) {
            None => None,
            Some(i) => Some(self.records.files.owner_at(i)),
        }
    }

    /// The previous owner of the data file `file_path`: the owner of its
    /// second newest claim.
    pub fn get_previous_file_owner(&self, file_path: &str) -> (r: Option<String>)
        ensures
            text_view(r) == owner_from_top(self@.current.files, key_id(file_path@), 1),
    {
        let key = String::from_str(file_path);
        match self.records.files.from_top(&key, 1) {
            None => None,
            Some(i) => Some(self.records.files.owner_at(i)),
        }
    }

    /// Records that the data file `file_path` existed before any mod changed
    /// it. The claim goes under the original-values owner, and only to a
    /// file that has no claims yet, so that it stays below every other.
    pub fn log_original_data_file(&mut self, file_path: &str) -> (r: Result<(), InstallLogError>)
        requires
            old(self).wf(),
            old(self)@.current.sequence_counter < u64::MAX,
        ensures
            final(self).wf(),
            final(self)@.saved == old(self)@.saved,
            stack(old(self)@.current.files, key_id(file_path@)).len() > 0 ==> is_already_claimed(
                r,
                file_path@,
            ) && final(self)@ == old(self)@,
            stack(old(self)@.current.files, key_id(file_path@)).len() == 0 ==> r is Ok
                && final(self)@.current == (LedgerView {
                files: old(self)@.current.files.push(
                    ClaimView {
                        resource: seq![file_path@],
                        owner: original_owner(),
                        value: (),
                        sequence: old(self)@.current.sequence_counter,
                    },
                ),
                sequence_counter: (old(self)@.current.sequence_counter + 1) as u64,
                ..old(self)@.current
            }),
    {
        let key = String::from_str(file_path);
        if self.records.files.from_top(&key, 0).is_some() {
            return Err(InstallLogError::AlreadyClaimed(key));
        }
        let ghost before = self.records.view();
        proof {
            lemma_holds_in_stack(before.files, identity_of(key.parts()), original_owner());
        }
        let seq = self.records.sequence_counter;
        self.records.files.push_claim(key, String::from_str(ORIGINAL_VALUES_KEY), (), seq);
        self.records.sequence_counter = seq + 1;
        proof {
            assert(self.records.view().files.drop_last() =~= before.files);
            lemma_counter_step(before, self.records.view());
        }
        Ok(())
    }

    /// The data files that `mod_key` claimed, oldest claim first.
    pub fn get_installed_mod_files(&self, mod_key: &str) -> (r: Result<Vec<String>, InstallLogError>)
        ensures
            !is_known_owner(self@.current, mod_key@) ==> is_mod_not_found(r, mod_key@),
            is_known_owner(self@.current, mod_key@) ==> (r matches Ok(v) && v@.map_values(
                |s: String| seq![s@],
            ) == resources_of(self@.current.files, mod_key@)),
    {
        if !same_text(mod_key, ORIGINAL_VALUES_KEY) && self.records.find_mod(mod_key).is_none() {
            return Err(InstallLogError::ModNotFound(String::from_str(mod_key)));
        }
        let v = self.records.files.claimed_by(mod_key);
        assert(v@.map_values(|s: String| seq![s@]) =~= v@.map_values(|k: String| k.parts()));
        Ok(v)
    }

    /// The owners of the claims on the data file `file_path`, oldest first.
    pub fn get_file_installers(&self, file_path: &str) -> (r: Vec<String>)
        ensures
            r@.map_values(|s: String| s@) == owners(stack(self@.current.files, key_id(file_path@))),
    {
        let key = String::from_str(file_path);
        self.records.files.installers(&key)
    }

    // ----- INI settings -----

    /// Records that `mod_key` set the INI setting `edit` to `value`; the mod becomes its
    /// current owner.
    pub fn add_ini_edit(&mut self, mod_key: &str, edit: &IniEdit, value: &str) -> (r: Result<(), InstallLogError>)
        requires
            old(self).wf(),
            old(self)@.current.sequence_counter < u64::MAX,
        ensures
            final(self).wf(),
            final(self)@.saved == old(self)@.saved,
            !is_registered(old(self)@.current, mod_key@) ==> is_mod_not_found(r, mod_key@)
                && final(self)@ == old(self)@,
            is_registered(old(self)@.current, mod_key@) && holds(
                old(self)@.current.inis,
                ini_id(*edit),
                mod_key@,
            ) ==> is_already_claimed(r, ini_label(*edit)) && final(self)@ == old(self)@,
            is_registered(old(self)@.current, mod_key@) && !holds(
                old(self)@.current.inis,
                ini_id(*edit),
                mod_key@,
            ) ==> r is Ok && final(self)@.current == (LedgerView {
                inis: old(self)@.current.inis.push(
                    ClaimView {
                        resource: seq![edit.file@, edit.section@, edit.key@],
                        owner: mod_key@,
                        value: value@,
                        sequence: old(self)@.current.sequence_counter,
                    },
                ),
                sequence_counter: (old(self)@.current.sequence_counter + 1) as u64,
                ..old(self)@.current
            }),
    {
        if self.records.find_mod(mod_key).is_none() {
            return Err(InstallLogError::ModNotFound(String::from_str(mod_key)));
        }
        let key = edit.duplicate();
        if self.records.inis.position(&key, mod_key).is_some() {
            return Err(InstallLogError::AlreadyClaimed(edit.to_string()));
        }
        let ghost before = self.records.view();
        proof {
            lemma_registered_not_original(before, mod_key@);
        }
        let seq = self.records.sequence_counter;
        self.records.inis.push_claim(key, String::from_str(mod_key), String::from_str(value), seq);
        self.records.sequence_counter = seq + 1;
        proof {
            assert(self.records.view().inis.drop_last() =~= before.inis);
            lemma_counter_step(before, self.records.view());
        }
        Ok(())
    }

    /// Replaces the value that `mod_key` recorded for the INI setting `edit`; the claim
    /// keeps its place in the stack.
    pub fn replace_ini_edit(&mut self, mod_key: &str, edit: &IniEdit, value: &str) -> (r: Result<(), InstallLogError>)
        requires
            old(self).wf(),
        ensures
            final(self).wf(),
            final(self)@.saved == old(self)@.saved,
            !is_known_owner(old(self)@.current, mod_key@) ==> is_mod_not_found(r, mod_key@)
                && final(self)@ == old(self)@,
            is_known_owner(old(self)@.current, mod_key@) && !holds(
                old(self)@.current.inis,
                ini_id(*edit),
                mod_key@,
            ) ==> is_entry_not_found(r, ini_label(*edit)) && final(self)@ == old(self)@,
            is_known_owner(old(self)@.current, mod_key@) && holds(
                old(self)@.current.inis,
                ini_id(*edit),
                mod_key@,
            ) ==> r is Ok && final(self)@.current == (LedgerView {
                inis: old(self)@.current.inis.update(
                    claim_index(old(self)@.current.inis, ini_id(*edit), mod_key@),
                    ClaimView {
                        value: value@,
                        ..old(self)@.current.inis[claim_index(
                            old(self)@.current.inis,
                            ini_id(*edit),
                            mod_key@,
                        )]
                    },
                ),
                ..old(self)@.current
            }),
    {
        if !same_text(mod_key, ORIGINAL_VALUES_KEY) && self.records.find_mod(mod_key).is_none() {
            return Err(InstallLogError::ModNotFound(String::from_str(mod_key)));
        }
        let key = edit.duplicate();
        let ghost before = self.records.view();
        match self.records.inis.position(&key, mod_key) {
            None => Err(InstallLogError::EntryNotFound(edit.to_string())),
            Some(i) => {
                proof {
                    lemma_claim_index_unique(before.inis, identity_of(key.parts()), mod_key@, i as int);
                }
                self.records.inis.set_value(i, String::from_str(value));
                proof {
                    lemma_update_consistent(before, before.inis, self.records.view().inis);
                    lemma_same_registry(before, self.records.view());
                    assert(ledger_wf(self.records.view()));
                }
                Ok(())
            },
        }
    }

    /// Removes the claim of `mod_key` on the INI setting `edit`; ownership falls back to
    /// the claim below it.
    pub fn remove_ini_edit(&mut self, mod_key: &str, edit: &IniEdit) -> (r: Result<(), InstallLogError>)
        requires
            old(self).wf(),
        ensures
            final(self).wf(),
            final(self)@.saved == old(self)@.saved,
            !is_known_owner(old(self)@.current, mod_key@) ==> is_mod_not_found(r, mod_key@)
                && final(self)@ == old(self)@,
            is_known_owner(old(self)@.current, mod_key@) && !holds(
                old(self)@.current.inis,
                ini_id(*edit),
                mod_key@,
            ) ==> is_entry_not_found(r, ini_label(*edit)) && final(self)@ == old(self)@,
            is_known_owner(old(self)@.current, mod_key@) && holds(
                old(self)@.current.inis,
                ini_id(*edit),
                mod_key@,
            ) ==> r is Ok && final(self)@.current == (LedgerView {
                inis: old(self)@.current.inis.remove(
                    claim_index(old(self)@.current.inis, ini_id(*edit), mod_key@),
                ),
                ..old(self)@.current
            }),
    {
        if !same_text(mod_key, ORIGINAL_VALUES_KEY) && self.records.find_mod(mod_key).is_none() {
            return Err(InstallLogError::ModNotFound(String::from_str(mod_key)));
        }
        let key = edit.duplicate();
        let ghost before = self.records.view();
        match self.records.inis.position(&key, mod_key) {
            None => Err(InstallLogError::EntryNotFound(edit.to_string())),
            Some(i) => {
                proof {
                    lemma_claim_index_unique(before.inis, identity_of(key.parts()), mod_key@, i as int);
                }
                self.records.inis.remove_claim(i);
                proof {
                    lemma_remove_consistent(before, before.inis, i as int);
                }
                Ok(())
            },
        }
    }

    /// The current owner of the INI setting `edit`: the owner of its newest claim.
    pub fn get_current_ini_edit_owner(&self, edit: &IniEdit) -> (r: Option<String>)
        ensures
            text_view(r) == owner_from_top(self@.current.inis, ini_id(*edit), 0),
    {
        let key = edit.duplicate();
        match self.records.inis.from_top(&key, 0) {
            None => None,
            Some(i) => Some(self.records.inis.owner_at(i)),
        }
    }

    /// The value recorded by the second newest claim on the INI setting `edit`: what it
    /// reverts to when its current owner's claim goes.
    pub fn get_previous_ini_value(&self, edit: &IniEdit) -> (r: Option<String>)
        ensures
            text_view(r) == value_from_top(self@.current.inis, ini_id(*edit), 1),
    {
        let key = edit.duplicate();
        match self.records.inis.from_top(&key, 1) {
            None => None,
            Some(i) => Some(self.records.inis.value_at(i)),
        }
    }

    /// Records the value of the INI setting `edit` from before any mod changed it. The
    /// claim goes under the original-values owner, and only to a setting
    /// that has no claims yet, so that it stays below every other.
    pub fn log_original_ini_value(&mut self, edit: &IniEdit, value: &str) -> (r: Result<(), InstallLogError>)
        requires
            old(self).wf(),
            old(self)@.current.sequence_counter < u64::MAX,
        ensures
            final(self).wf(),
            final(self)@.saved == old(self)@.saved,
            stack(old(self)@.current.inis, ini_id(*edit)).len() > 0 ==> is_already_claimed(r, ini_label(*edit))
                && final(self)@ == old(self)@,
            stack(old(self)@.current.inis, ini_id(*edit)).len() == 0 ==> r is Ok
                && final(self)@.current == (LedgerView {
                inis: old(self)@.current.inis.push(
                    ClaimView {
                        resource: seq![edit.file@, edit.section@, edit.key@],
                        owner: original_owner(),
                        value: value@,
                        sequence: old(self)@.current.sequence_counter,
                    },
                ),
                sequence_counter: (old(self)@.current.sequence_counter + 1) as u64,
                ..old(self)@.current
            }),
    {
        let key = edit.duplicate();
        if self.records.inis.from_top(&key, 0).is_some() {
            return Err(InstallLogError::AlreadyClaimed(edit.to_string()));
        }
        let ghost before = self.records.view();
        proof {
            lemma_holds_in_stack(before.inis, identity_of(key.parts()), original_owner());
        }
        let seq = self.records.sequence_counter;
        self.records.inis.push_claim(key, String::from_str(ORIGINAL_VALUES_KEY), String::from_str(value), seq);
        self.records.sequence_counter = seq + 1;
        proof {
            assert(self.records.view().inis.drop_last() =~= before.inis);
            lemma_counter_step(before, self.records.view());
        }
        Ok(())
    }

    /// The INI settings that `mod_key` claimed, oldest claim first.
    pub fn get_installed_ini_edits(&self, mod_key: &str) -> (r: Result<Vec<IniEdit>, InstallLogError>)
        ensures
            !is_known_owner(self@.current, mod_key@) ==> is_mod_not_found(r, mod_key@),
            is_known_owner(self@.current, mod_key@) ==> (r matches Ok(v) && v@.map_values(
                |k: IniEdit| seq![k.file@, k.section@, k.key@],
            ) == resources_of(self@.current.inis, mod_key@)),
    {
        if !same_text(mod_key, ORIGINAL_VALUES_KEY) && self.records.find_mod(mod_key).is_none() {
            return Err(InstallLogError::ModNotFound(String::from_str(mod_key)));
        }
        let v = self.records.inis.claimed_by(mod_key);
        assert(v@.map_values(|k: IniEdit| seq![k.file@, k.section@, k.key@]) =~= v@.map_values(|k: IniEdit| k.parts()));
        Ok(v)
    }

    /// The owners of the claims on the INI setting `edit`, oldest first.
    pub fn get_ini_edit_installers(&self, edit: &IniEdit) -> (r: Vec<String>)
        ensures
            r@.map_values(|s: String| s@) == owners(stack(self@.current.inis, ini_id(*edit))),
    {
        let key = edit.duplicate();
        self.records.inis.installers(&key)
    }

    // ----- game-specific values -----

    /// Records that `mod_key` set the game-specific value `gsv_key` to `value`; the mod becomes its
    /// current owner.
    pub fn add_gsv_edit(&mut self, mod_key: &str, gsv_key: &str, value: &[u8]) -> (r: Result<(), InstallLogError>)
        requires
            old(self).wf(),
            old(self)@.current.sequence_counter < u64::MAX,
        ensures
            final(self).wf(),
            final(self)@.saved == old(self)@.saved,
            !is_registered(old(self)@.current, mod_key@) ==> is_mod_not_found(r, mod_key@)
                && final(self)@ == old(self)@,
            is_registered(old(self)@.current, mod_key@) && holds(
                old(self)@.current.gsvs,
                key_id(gsv_key@),
                mod_key@,
            ) ==> is_already_claimed(r, gsv_key@) && final(self)@ == old(self)@,
            is_registered(old(self)@.current, mod_key@) && !holds(
                old(self)@.current.gsvs,
                key_id(gsv_key@),
                mod_key@,
            ) ==> r is Ok && final(self)@.current == (LedgerView {
                gsvs: old(self)@.current.gsvs.push(
                    ClaimView {
                        resource: seq![gsv_key@],
                        owner: mod_key@,
                        value: value@,
                        sequence: old(self)@.current.sequence_counter,
                    },
                ),
                sequence_counter: (old(self)@.current.sequence_counter + 1) as u64,
                ..old(self)@.current
            }),
    {
        if self.records.find_mod(mod_key).is_none() {
            return Err(InstallLogError::ModNotFound(String::from_str(mod_key)));
        }
        let key = String::from_str(gsv_key);
        if self.records.gsvs.position(&key, mod_key).is_some() {
            return Err(InstallLogError::AlreadyClaimed(String::from_str(gsv_key)));
        }
        let ghost before = self.records.view();
        proof {
            lemma_registered_not_original(before, mod_key@);
        }
        let seq = self.records.sequence_counter;
        self.records.gsvs.push_claim(key, String::from_str(mod_key), slice_to_vec(value), seq);
        self.records.sequence_counter = seq + 1;
        proof {
            assert(self.records.view().gsvs.drop_last() =~= before.gsvs);
            lemma_counter_step(before, self.records.view());
        }
        Ok(())
    }

    /// Replaces the value that `mod_key` recorded for the game-specific value `gsv_key`; the claim
    /// keeps its place in the stack.
    pub fn replace_gsv_edit(&mut self, mod_key: &str, gsv_key: &str, value: &[u8]) -> (r: Result<(), InstallLogError>)
        requires
            old(self).wf(),
        ensures
            final(self).wf(),
            final(self)@.saved == old(self)@.saved,
            !is_known_owner(old(self)@.current, mod_key@) ==> is_mod_not_found(r, mod_key@)
                && final(self)@ == old(self)@,
            is_known_owner(old(self)@.current, mod_key@) && !holds(
                old(self)@.current.gsvs,
                key_id(gsv_key@),
                mod_key@,
            ) ==> is_entry_not_found(r, gsv_key@) && final(self)@ == old(self)@,
            is_known_owner(old(self)@.current, mod_key@) && holds(
                old(self)@.current.gsvs,
                key_id(gsv_key@),
                mod_key@,
            ) ==> r is Ok && final(self)@.current == (LedgerView {
                gsvs: old(self)@.current.gsvs.update(
                    claim_index(old(self)@.current.gsvs, key_id(gsv_key@), mod_key@),
                    ClaimView {
                        value: value@,
                        ..old(self)@.current.gsvs[claim_index(
                            old(self)@.current.gsvs,
                            key_id(gsv_key@),
                            mod_key@,
                        )]
                    },
                ),
                ..old(self)@.current
            }),
    {
        if !same_text(mod_key, ORIGINAL_VALUES_KEY) && self.records.find_mod(mod_key).is_none() {
            return Err(InstallLogError::ModNotFound(String::from_str(mod_key)));
        }
        let key = String::from_str(gsv_key);
        let ghost before = self.records.view();
        match self.records.gsvs.position(&key, mod_key) {
            None => Err(InstallLogError::EntryNotFound(String::from_str(gsv_key))),
            Some(i) => {
                proof {
                    lemma_claim_index_unique(before.gsvs, identity_of(key.parts()), mod_key@, i as int);
                }
                self.records.gsvs.set_value(i, slice_to_vec(value));
                proof {
                    lemma_update_consistent(before, before.gsvs, self.records.view().gsvs);
                    lemma_same_registry(before, self.records.view());
                    assert(ledger_wf(self.records.view()));
                }
                Ok(())
            },
        }
    }

    /// Removes the claim of `mod_key` on the game-specific value `gsv_key`; ownership falls back to
    /// the claim below it.
    pub fn remove_gsv_edit(&mut self, mod_key: &str, gsv_key: &str) -> (r: Result<(), InstallLogError>)
        requires
            old(self).wf(),
        ensures
            final(self).wf(),
            final(self)@.saved == old(self)@.saved,
            !is_known_owner(old(self)@.current, mod_key@) ==> is_mod_not_found(r, mod_key@)
                && final(self)@ == old(self)@,
            is_known_owner(old(self)@.current, mod_key@) && !holds(
                old(self)@.current.gsvs,
                key_id(gsv_key@),
                mod_key@,
            ) ==> is_entry_not_found(r, gsv_key@) && final(self)@ == old(self)@,
            is_known_owner(old(self)@.current, mod_key@) && holds(
                old(self)@.current.gsvs,
                key_id(gsv_key@),
                mod_key@,
            ) ==> r is Ok && final(self)@.current == (LedgerView {
                gsvs: old(self)@.current.gsvs.remove(
                    claim_index(old(self)@.current.gsvs, key_id(gsv_key@), mod_key@),
                ),
                ..old(self)@.current
            }),
    {
        if !same_text(mod_key, ORIGINAL_VALUES_KEY) && self.records.find_mod(mod_key).is_none() {
            return Err(InstallLogError::ModNotFound(String::from_str(mod_key)));
        }
        let key = String::from_str(gsv_key);
        let ghost before = self.records.view();
        match self.records.gsvs.position(&key, mod_key) {
            None => Err(InstallLogError::EntryNotFound(String::from_str(gsv_key))),
            Some(i) => {
                proof {
                    lemma_claim_index_unique(before.gsvs, identity_of(key.parts()), mod_key@, i as int);
                }
                self.records.gsvs.remove_claim(i);
                proof {
                    lemma_remove_consistent(before, before.gsvs, i as int);
                }
                Ok(())
            },
        }
    }

    /// The current owner of the game-specific value `gsv_key`: the owner of its newest claim.
    pub fn get_current_gsv_edit_owner(&self, gsv_key: &str) -> (r: Option<String>)
        ensures
            text_view(r) == owner_from_top(self@.current.gsvs, key_id(gsv_key@), 0),
    {
        let key = String::from_str(gsv_key);
        match self.records.gsvs.from_top(&key, 0) {
            None => None,
            Some(i) => Some(self.records.gsvs.owner_at(i)),
        }
    }

    /// The value recorded by the second newest claim on the game-specific value `gsv_key`: what it
    /// reverts to when its current owner's claim goes.
    pub fn get_previous_gsv_value(&self, gsv_key: &str) -> (r: Option<Vec<u8>>)
        ensures
            bytes_view(r) == value_from_top(self@.current.gsvs, key_id(gsv_key@), 1),
    {
        let key = String::from_str(gsv_key);
        match self.records.gsvs.from_top(&key, 1) {
            None => None,
            Some(i) => Some(self.records.gsvs.value_at(i)),
        }
    }

    /// Records the value of the game-specific value `gsv_key` from before any mod changed it. The
    /// claim goes under the original-values owner, and only to a setting
    /// that has no claims yet, so that it stays below every other.
    pub fn log_original_gsv_value(&mut self, gsv_key: &str, value: &[u8]) -> (r: Result<(), InstallLogError>)
        requires
            old(self).wf(),
            old(self)@.current.sequence_counter < u64::MAX,
        ensures
            final(self).wf(),
            final(self)@.saved == old(self)@.saved,
            stack(old(self)@.current.gsvs, key_id(gsv_key@)).len() > 0 ==> is_already_claimed(r, gsv_key@)
                && final(self)@ == old(self)@,
            stack(old(self)@.current.gsvs, key_id(gsv_key@)).len() == 0 ==> r is Ok
                && final(self)@.current == (LedgerView {
                gsvs: old(self)@.current.gsvs.push(
                    ClaimView {
                        resource: seq![gsv_key@],
                        owner: original_owner(),
                        value: value@,
                        sequence: old(self)@.current.sequence_counter,
                    },
                ),
                sequence_counter: (old(self)@.current.sequence_counter + 1) as u64,
                ..old(self)@.current
            }),
    {
        let key = String::from_str(gsv_key);
        if self.records.gsvs.from_top(&key, 0).is_some() {
            return Err(InstallLogError::AlreadyClaimed(String::from_str(gsv_key)));
        }
        let ghost before = self.records.view();
        proof {
            lemma_holds_in_stack(before.gsvs, identity_of(key.parts()), original_owner());
        }
        let seq = self.records.sequence_counter;
        self.records.gsvs.push_claim(key, String::from_str(ORIGINAL_VALUES_KEY), slice_to_vec(value), seq);
        self.records.sequence_counter = seq + 1;
        proof {
            assert(self.records.view().gsvs.drop_last() =~= before.gsvs);
            lemma_counter_step(before, self.records.view());
        }
        Ok(())
    }

    /// The game-specific value keys that `mod_key` claimed, oldest claim first.
    pub fn get_installed_gsv_edits(&self, mod_key: &str) -> (r: Result<Vec<String>, InstallLogError>)
        ensures
            !is_known_owner(self@.current, mod_key@) ==> is_mod_not_found(r, mod_key@),
            is_known_owner(self@.current, mod_key@) ==> (r matches Ok(v) && v@.map_values(
                |k: String| seq![k@],
            ) == resources_of(self@.current.gsvs, mod_key@)),
    {
        if !same_text(mod_key, ORIGINAL_VALUES_KEY) && self.records.find_mod(mod_key).is_none() {
            return Err(InstallLogError::ModNotFound(String::from_str(mod_key)));
        }
        let v = self.records.gsvs.claimed_by(mod_key);
        assert(v@.map_values(|k: String| seq![k@]) =~= v@.map_values(|k: String| k.parts()));
        Ok(v)
    }

    /// The owners of the claims on the game-specific value `gsv_key`, oldest first.
    pub fn get_gsv_edit_installers(&self, gsv_key: &str) -> (r: Vec<String>)
        ensures
            r@.map_values(|s: String| s@) == owners(stack(self@.current.gsvs, key_id(gsv_key@))),
    {
        let key = String::from_str(gsv_key);
        self.records.gsvs.installers(&key)
    }

    // ----- mod registry -----

    /// Registers a mod under `mod_key`.
    pub fn add_mod(&mut self, mod_key: &str, info: &ModInfo) -> (r: Result<(), InstallLogError>)
        requires
            old(self).wf(),
        ensures
            final(self).wf(),
            final(self)@.saved == old(self)@.saved,
            is_registered(old(self)@.current, mod_key@) || mod_key@ == original_owner()
                ==> is_already_registered(r, mod_key@) && final(self)@ == old(self)@,
            !is_registered(old(self)@.current, mod_key@) && mod_key@ != original_owner() ==> r is Ok
                && final(self)@.current == (LedgerView {
                mods: old(self)@.current.mods.push((mod_key@, info@)),
                ..old(self)@.current
            }),
    {
        if same_text(mod_key, ORIGINAL_VALUES_KEY) || self.records.find_mod(mod_key).is_some() {
            return Err(InstallLogError::AlreadyRegistered(String::from_str(mod_key)));
        }
        let ghost before = self.records.view();
        self.records.mods.push(ModEntry { key: String::from_str(mod_key), info: info.duplicate() });
        proof {
            let v = self.records.view();
            assert(v.mods =~= before.mods.push((mod_key@, info@)));
            assert forall|k: Seq<char>| is_known_owner(before, k) implies is_known_owner(v, k) by {
                if is_registered(before, k) {
                    let i = choose|i: int| 0 <= i < before.mods.len() && before.mods[i].0 == k;
                    assert(v.mods[i] == before.mods[i]);
                }
            }
        }
        Ok(())
    }

    /// Replaces the metadata of the registered mod `mod_key`.
    pub fn replace_mod(&mut self, mod_key: &str, info: &ModInfo) -> (r: Result<(), InstallLogError>)
        requires
            old(self).wf(),
        ensures
            final(self).wf(),
            final(self)@.saved == old(self)@.saved,
            !is_registered(old(self)@.current, mod_key@) ==> is_mod_not_found(r, mod_key@)
                && final(self)@ == old(self)@,
            is_registered(old(self)@.current, mod_key@) ==> r is Ok && final(self)@.current == (
            LedgerView {
                mods: old(self)@.current.mods.update(
                    mod_index(old(self)@.current, mod_key@),
                    (mod_key@, info@),
                ),
                ..old(self)@.current
            }),
    {
        let ghost before = self.records.view();
        match self.records.find_mod(mod_key) {
            None => Err(InstallLogError::ModNotFound(String::from_str(mod_key))),
            Some(i) => {
                let old_entry = self.records.mods.remove(i);
                self.records.mods.insert(i, ModEntry { key: old_entry.key, info: info.duplicate() });
                proof {
                    let v = self.records.view();
                    let m = mod_index(before, mod_key@);
                    assert(m == i);
                    assert(v.mods =~= before.mods.update(m, (mod_key@, info@)));
                    assert forall|k: Seq<char>| is_known_owner(before, k) implies is_known_owner(
                        v,
                        k,
                    ) by {
                        if is_registered(before, k) {
                            let j = choose|j: int| 0 <= j < before.mods.len() && before.mods[j].0 == k;
                            assert(v.mods[j].0 == before.mods[j].0);
                        }
                    }
                }
                Ok(())
            },
        }
    }

    /// Removes the registered mod `mod_key` and every claim it holds.
    pub fn remove_mod(&mut self, mod_key: &str) -> (r: Result<(), InstallLogError>)
        requires
            old(self).wf(),
        ensures
            final(self).wf(),
            final(self)@.saved == old(self)@.saved,
            !is_registered(old(self)@.current, mod_key@) ==> is_mod_not_found(r, mod_key@)
                && final(self)@ == old(self)@,
            is_registered(old(self)@.current, mod_key@) ==> r is Ok && final(self)@.current == (
            LedgerView {
                mods: old(self)@.current.mods.remove(mod_index(old(self)@.current, mod_key@)),
                files: without_owner(old(self)@.current.files, mod_key@),
                inis: without_owner(old(self)@.current.inis, mod_key@),
                gsvs: without_owner(old(self)@.current.gsvs, mod_key@),
                ..old(self)@.current
            }),
    {
        let ghost before = self.records.view();
        match self.records.find_mod(mod_key) {
            None => Err(InstallLogError::ModNotFound(String::from_str(mod_key))),
            Some(i) => {
                self.records.mods.remove(i);
                self.records.files.remove_owner(mod_key);
                self.records.inis.remove_owner(mod_key);
                self.records.gsvs.remove_owner(mod_key);
                proof {
                    let v = self.records.view();
                    let m = mod_index(before, mod_key@);
                    assert(m == i);
                    assert(v.mods =~= before.mods.remove(m));
                    assert forall|k: Seq<char>|
                        k != mod_key@ && is_known_owner(before, k) implies is_known_owner(v, k) by {
                        if is_registered(before, k) {
                            let j = choose|j: int| 0 <= j < before.mods.len() && before.mods[j].0 == k;
                            if j < i {
                                assert(v.mods[j] == before.mods[j]);
                            } else {
                                assert(j != i);
                                assert(v.mods[j - 1] == before.mods[j]);
                            }
                        }
                    }
                    lemma_without_owner_members(before.files, mod_key@);
                    lemma_without_owner_members(before.inis, mod_key@);
                    lemma_without_owner_members(before.gsvs, mod_key@);
                    lemma_without_owner_originals_first(before.files, mod_key@);
                    lemma_without_owner_originals_first(before.inis, mod_key@);
                    lemma_without_owner_originals_first(before.gsvs, mod_key@);
                }
                Ok(())
            },
        }
    }

    /// The metadata of the mod `mod_key`, if it is registered.
    pub fn get_mod(&self, mod_key: &str) -> (r: Option<ModInfo>)
        requires
            self.wf(),
        ensures
            r is Some <==> is_registered(self@.current, mod_key@),
            r matches Some(info) ==> info@ == self@.current.mods[mod_index(
                self@.current,
                mod_key@,
            )].1,
    {
        match self.records.find_mod(mod_key) {
            None => None,
            Some(i) => {
                assert(self.records.view().mods[i as int] == self.records.mods@[i as int].view());
                Some(self.records.mods[i].info.duplicate())
            },
        }
    }

    /// The metadata of every registered mod, in registration order.
    pub fn active_mods(&self) -> (r: Vec<ModInfo>)
        ensures
            r@.map_values(|m: ModInfo| m@) == self@.current.mods.map_values(
                |e: (Seq<char>, ModInfoView)| e.1,
            ),
    {
        let mut out: Vec<ModInfo> = Vec::new();
        let mut i: usize = 0;
        while i < self.records.mods.len()
            invariant
                i <= self.records.mods.len(),
                out@.len() == i,
                forall|j: int| 0 <= j < i ==> #[trigger] out@[j]@ == self@.current.mods[j].1,
            decreases self.records.mods.len() - i,
        {
            assert(self@.current.mods[i as int] == self.records.mods@[i as int].view());
            out.push(self.records.mods[i].info.duplicate());
            i = i + 1;
        }
        assert(out@.map_values(|m: ModInfo| m@) =~= self@.current.mods.map_values(
            |e: (Seq<char>, ModInfoView)| e.1,
        ));
        out
    }
}

/// A claim on the data file `path` by `owner`, numbered `sequence`.
pub open spec fn file_claim(path: Seq<char>, owner: Seq<char>, sequence: u64) -> ClaimView<()> {
    ClaimView { resource: seq![path], owner, value: (), sequence }
}

/// Paths or keys that differ only in ASCII case name the same resource:
/// they have one stack of claims, and an owner holds a claim on one exactly
/// when it holds one on the other.
pub proof fn lemma_case_variant_keys<M>(cs: Seq<ClaimView<M>>, p: Seq<char>, q: Seq<char>)
    requires
        folded(p) == folded(q),
    ensures
        key_id(p) == key_id(q),
        stack(cs, key_id(p)) == stack(cs, key_id(q)),
        forall|o: Seq<char>| holds(cs, key_id(p), o) == holds(cs, key_id(q), o),
{
    assert(key_id(p) =~= key_id(q));
}

/// The newest claim on a resource is the last one in its stack.
proof fn lemma_stack_last_is_latest<M>(cs: Seq<ClaimView<M>>, id: Seq<Seq<u32>>)
    requires
        stack(cs, id).len() > 0,
    ensures
        exists|j: int|
            0 <= j < cs.len() && cs[j] == stack(cs, id).last() && identity_of(cs[j].resource) == id
                && forall|i: int| j < i < cs.len() ==> identity_of(#[trigger] cs[i].resource) != id,
    decreases cs.len(),
{
    if identity_of(cs.last().resource) == id {
        let j = cs.len() - 1;
        assert(cs[j] == stack(cs, id).last());
    } else {
        let d = cs.drop_last();
        lemma_stack_last_is_latest(d, id);
        let j = choose|j: int|
            0 <= j < d.len() && d[j] == stack(d, id).last() && identity_of(d[j].resource) == id
                && forall|i: int| j < i < d.len() ==> identity_of(#[trigger] d[i].resource) != id;
        assert(cs[j] == d[j]);
        assert forall|i: int| j < i < cs.len() implies identity_of(#[trigger] cs[i].resource) != id by {
            if i < d.len() {
                assert(cs[i] == d[i]);
            }
        }
    }
}

/// The current owner of a resource holds its newest claim: no claim on the
/// resource has a higher sequence number.
pub proof fn lemma_current_is_newest<M>(cs: Seq<ClaimView<M>>, id: Seq<Seq<u32>>)
    requires
        claims_wf(cs),
        stack(cs, id).len() > 0,
    ensures
        forall|i: int|
            0 <= i < cs.len() && identity_of(#[trigger] cs[i].resource) == id ==> cs[i].sequence
                <= stack(cs, id).last().sequence,
{
    lemma_stack_last_is_latest(cs, id);
    let j = choose|j: int|
        0 <= j < cs.len() && cs[j] == stack(cs, id).last() && identity_of(cs[j].resource) == id
            && forall|i: int| j < i < cs.len() ==> identity_of(#[trigger] cs[i].resource) != id;
    assert forall|i: int| 0 <= i < cs.len() && identity_of(#[trigger] cs[i].resource) == id implies cs[i].sequence
        <= stack(cs, id).last().sequence by {
        if i < j {
            assert(cs[i].sequence < cs[j].sequence);
        }
    }
}

/// An original-values claim is the oldest claim on its resource: every
/// other claim on the resource has a higher sequence number.
pub proof fn lemma_original_is_oldest<M>(cs: Seq<ClaimView<M>>, i: int)
    requires
        claims_wf(cs),
        originals_first(cs),
        0 <= i < cs.len(),
        cs[i].owner == original_owner(),
    ensures
        forall|j: int|
            0 <= j < cs.len() && j != i && identity_of(#[trigger] cs[j].resource) == identity_of(
                cs[i].resource,
            ) ==> cs[i].sequence < cs[j].sequence,
{
    assert forall|j: int|
        0 <= j < cs.len() && j != i && identity_of(#[trigger] cs[j].resource) == identity_of(
            cs[i].resource,
        ) implies cs[i].sequence < cs[j].sequence by {
        if j < i {
            assert(cs[i].owner != original_owner());
        }
    }
}

/// Two mods claim one file in turn: the second becomes its current owner
/// and the first its previous one; removing the second's claim makes the
/// first current again, and removing the first's too leaves the claims as
/// they were, with no owner where the file had none.
pub proof fn lemma_claims_stack_and_revert(
    cs: Seq<ClaimView<()>>,
    path: Seq<char>,
    a: Seq<char>,
    b: Seq<char>,
    n: u64,
)
    requires
        a != b,
        !holds(cs, key_id(path), a),
        !holds(cs, key_id(path), b),
        n < u64::MAX,
    ensures
        ({
            let id = key_id(path);
            let one = cs.push(file_claim(path, a, n));
            let two = one.push(file_claim(path, b, (n + 1) as u64));
            let back = two.remove(claim_index(two, id, b));
            let gone = back.remove(claim_index(back, id, a));
            &&& owner_from_top(two, id, 0) == Some(b)
            &&& owner_from_top(two, id, 1) == Some(a)
            &&& back == one
            &&& owner_from_top(back, id, 0) == Some(a)
            &&& gone == cs
            &&& (stack(cs, id).len() == 0 ==> owner_from_top(gone, id, 0) is None)
        }),
{
    let id = key_id(path);
    let one = cs.push(file_claim(path, a, n));
    let two = one.push(file_claim(path, b, (n + 1) as u64));
    assert(one.drop_last() == cs);
    assert(two.drop_last() == one);
    assert(identity_of(file_claim(path, a, n).resource) == id);
    assert(identity_of(file_claim(path, b, (n + 1) as u64).resource) == id);
    assert(stack(one, id) == stack(cs, id).push(file_claim(path, a, n)));
    assert(stack(two, id) == stack(one, id).push(file_claim(path, b, (n + 1) as u64)));
    let lb = two.len() - 1;
    assert(two[lb].owner == b && identity_of(two[lb].resource) == id);
    let ib = claim_index(two, id, b);
    if ib < lb {
        if ib < cs.len() {
            assert(two[ib] == cs[ib]);
        } else {
            assert(two[ib] == one[ib]);
        }
    }
    assert(ib == lb);
    let back = two.remove(ib);
    assert(back =~= one);
    let la = one.len() - 1;
    assert(one[la].owner == a && identity_of(one[la].resource) == id);
    let ia = claim_index(back, id, a);
    if ia < la {
        assert(one[ia] == cs[ia]);
    }
    assert(ia == la);
    assert(back.remove(ia) =~= cs);
}

/// A second `begin_transaction` without a commit or rollback in between is
/// refused.
pub proof fn lemma_begin_twice_refused(s: LedgerState)
    ensures
        begun(s) matches Some(t) ==> begun(t) is None,
{
}

/// With no transaction active, commit and rollback are both refused.
pub proof fn lemma_no_transaction_refused(s: LedgerState)
    requires
        s.saved is None,
    ensures
        committed(s) is None,
        rolled_back(s) is None,
{
}

/// Rolling back restores exactly what was recorded before
/// `begin_transaction`, whatever changed in between: every change keeps the
/// saved state, so `s2` stands for the state after any of them.
pub proof fn lemma_rollback_restores(s0: LedgerState, s1: LedgerState, s2: LedgerState)
    requires
        begun(s0) == Some(s1),
        s2.saved == s1.saved,
    ensures
        rolled_back(s2) == Some(LedgerState { current: s0.current, saved: None }),
        s0.saved is None,
{
}

/// Once a key is registered, registering it again is refused: after a
/// registration the key is registered.
pub proof fn lemma_register_twice_refused(v: LedgerView, k: Seq<char>, info: ModInfoView)
    ensures
        is_registered(LedgerView { mods: v.mods.push((k, info)), ..v }, k),
{
    let w = LedgerView { mods: v.mods.push((k, info)), ..v };
    assert(w.mods[v.mods.len() as int].0 == k);
}

/// No claim of `k` is left once its claims are removed.
proof fn lemma_no_resources_left<M>(cs: Seq<ClaimView<M>>, k: Seq<char>)
    requires
        forall|i: int| 0 <= i < cs.len() ==> (#[trigger] cs[i]).owner != k,
    ensures
        resources_of(cs, k).len() == 0,
    decreases cs.len(),
{
    if cs.len() > 0 {
        assert(cs.last().owner != k);
        assert forall|i: int| 0 <= i < cs.drop_last().len() implies (
        #[trigger] cs.drop_last()[i]).owner != k by {
            assert(cs.drop_last()[i] == cs[i]);
        }
        lemma_no_resources_left(cs.drop_last(), k);
    }
}

/// Removing a mod removes every claim it held: none of its claims remain,
/// it claims no resource, and no resource lists it among its installers.
pub proof fn lemma_remove_cascades<M>(cs: Seq<ClaimView<M>>, k: Seq<char>, id: Seq<Seq<u32>>)
    ensures
        forall|i: int|
            0 <= i < without_owner(cs, k).len() ==> (#[trigger] without_owner(cs, k)[i]).owner != k,
        resources_of(without_owner(cs, k), k).len() == 0,
        !owners(stack(without_owner(cs, k), id)).contains(k),
{
    lemma_without_owner_members(cs, k);
    let w = without_owner(cs, k);
    lemma_no_resources_left(w, k);
    crate::ownership::lemma_stack_members(w, id);
    if owners(stack(w, id)).contains(k) {
        let t = choose|t: int| 0 <= t < owners(stack(w, id)).len() && owners(stack(w, id))[t] == k;
        let i = choose|i: int| 0 <= i < w.len() && w[i] == #[trigger] stack(w, id)[t] && identity_of(w[i].resource) == id;
        assert(w[i].owner != k);
    }
}

/// After a claim numbered with the counter is added and the counter moves
/// on, the ledger is still well formed.
proof fn lemma_counter_step(before: LedgerView, after: LedgerView)
    requires
        ledger_wf(before),
        after.mods == before.mods,
        after.sequence_counter == before.sequence_counter + 1,
        claims_wf(after.files) && claims_wf(after.inis) && claims_wf(after.gsvs),
        after.files == before.files || (after.files.drop_last() == before.files
            && after.files.len() == before.files.len() + 1
            && after.files.last().sequence == before.sequence_counter
            && is_known_owner(before, after.files.last().owner)
            && (after.files.last().owner != original_owner() || stack(
            before.files,
            identity_of(after.files.last().resource),
        ).len() == 0)),
        after.inis == before.inis || (after.inis.drop_last() == before.inis
            && after.inis.len() == before.inis.len() + 1
            && after.inis.last().sequence == before.sequence_counter
            && is_known_owner(before, after.inis.last().owner)
            && (after.inis.last().owner != original_owner() || stack(
            before.inis,
            identity_of(after.inis.last().resource),
        ).len() == 0)),
        after.gsvs == before.gsvs || (after.gsvs.drop_last() == before.gsvs
            && after.gsvs.len() == before.gsvs.len() + 1
            && after.gsvs.last().sequence == before.sequence_counter
            && is_known_owner(before, after.gsvs.last().owner)
            && (after.gsvs.last().owner != original_owner() || stack(
            before.gsvs,
            identity_of(after.gsvs.last().resource),
        ).len() == 0)),
    ensures
        ledger_wf(after),
{
    assert forall|k: Seq<char>| is_known_owner(before, k) implies is_known_owner(after, k) by {
        if is_registered(before, k) {
            let i = choose|i: int| 0 <= i < before.mods.len() && before.mods[i].0 == k;
            assert(after.mods[i].0 == k);
        }
    }
    lemma_grown_consistent(before, after, before.files, after.files);
    lemma_grown_consistent(before, after, before.inis, after.inis);
    lemma_grown_consistent(before, after, before.gsvs, after.gsvs);
}

proof fn lemma_grown_consistent<M>(
    before: LedgerView,
    after: LedgerView,
    b: Seq<ClaimView<M>>,
    a: Seq<ClaimView<M>>,
)
    requires
        claims_consistent(before, b),
        claims_wf(a),
        after.sequence_counter == before.sequence_counter + 1,
        forall|k: Seq<char>| is_known_owner(before, k) ==> is_known_owner(after, k),
        a == b || (a.drop_last() == b && a.len() == b.len() + 1 && a.last().sequence
            == before.sequence_counter && is_known_owner(before, a.last().owner) && (a.last().owner
            != original_owner() || stack(b, identity_of(a.last().resource)).len() == 0)),
    ensures
        claims_consistent(after, a),
{
    if a != b {
        assert forall|i: int, j: int|
            #![trigger a[i], a[j]]
            0 <= i < j < a.len() && identity_of(a[i].resource) == identity_of(a[j].resource)
                implies a[j].owner != original_owner() by {
            assert(a[i] == b[i]);
            if j < b.len() {
                assert(a[j] == b[j]);
            } else if a[j].owner == original_owner() {
                lemma_id_in_stack(b, identity_of(a[j].resource), i);
            }
        }
    }
    assert forall|i: int| 0 <= i < a.len() implies #[trigger] a[i].sequence < after.sequence_counter
        && is_known_owner(after, a[i].owner) by {
        if i < b.len() {
            assert(a[i] == b[i]);
        }
    }
}

/// With claims unique per resource and owner, the claim found is the one
/// `claim_index` names.
proof fn lemma_claim_index_unique<M>(cs: Seq<ClaimView<M>>, id: Seq<Seq<u32>>, owner: Seq<char>, i: int)
    requires
        claims_wf(cs),
        0 <= i < cs.len(),
        identity_of(cs[i].resource) == id,
        cs[i].owner == owner,
    ensures
        claim_index(cs, id, owner) == i,
{
    assert(holds(cs, id, owner));
}

/// A claim on `id` puts a claim in the stack of `id`.
proof fn lemma_id_in_stack<M>(cs: Seq<ClaimView<M>>, id: Seq<Seq<u32>>, i: int)
    requires
        0 <= i < cs.len(),
        identity_of(cs[i].resource) == id,
    ensures
        stack(cs, id).len() > 0,
    decreases cs.len(),
{
    if i < cs.len() - 1 {
        assert(cs.drop_last()[i] == cs[i]);
        lemma_id_in_stack(cs.drop_last(), id, i);
    }
}

/// A registered key is not the original-values owner.
proof fn lemma_registered_not_original(v: LedgerView, k: Seq<char>)
    requires
        ledger_wf(v),
        is_registered(v, k),
    ensures
        k != original_owner(),
{
    let i = choose|i: int| 0 <= i < v.mods.len() && v.mods[i].0 == k;
    assert(v.mods[i].0 != original_owner());
}

/// A claim of `owner` on `id` is in the stack of `id`.
proof fn lemma_holds_in_stack<M>(cs: Seq<ClaimView<M>>, id: Seq<Seq<u32>>, owner: Seq<char>)
    ensures
        holds(cs, id, owner) ==> stack(cs, id).len() > 0,
    decreases cs.len(),
{
    if cs.len() > 0 && holds(cs, id, owner) {
        let i = choose|i: int| 0 <= i < cs.len() && identity_of(cs[i].resource) == id && cs[i].owner == owner;
        if i < cs.len() - 1 {
            assert(cs.drop_last()[i] == cs[i]);
            lemma_holds_in_stack(cs.drop_last(), id, owner);
        }
    }
}

/// Changing the value of one claim keeps a kind's claims consistent with the
/// ledger.
proof fn lemma_update_consistent<M>(v: LedgerView, b: Seq<ClaimView<M>>, a: Seq<ClaimView<M>>)
    requires
        claims_consistent(v, b),
        claims_wf(a),
        a.len() == b.len(),
        forall|t: int|
            0 <= t < a.len() ==> (#[trigger] a[t]).sequence == b[t].sequence && a[t].owner == b[t].owner
                && a[t].resource == b[t].resource,
    ensures
        claims_consistent(v, a),
{
    assert forall|i: int, j: int|
        #![trigger a[i], a[j]]
        0 <= i < j < a.len() && identity_of(a[i].resource) == identity_of(a[j].resource)
            implies a[j].owner != original_owner() by {
        assert(b[i].resource == a[i].resource);
        assert(b[j].resource == a[j].resource && b[j].owner == a[j].owner);
    }
    assert forall|t: int| 0 <= t < a.len() implies #[trigger] a[t].sequence < v.sequence_counter by {
        assert(a[t].sequence == b[t].sequence);
    }
    assert forall|t: int| 0 <= t < a.len() implies is_known_owner(v, #[trigger] a[t].owner) by {
        assert(a[t].owner == b[t].owner);
    }
}

/// Two ledger states with the same registry and counter know the same
/// owners; if only the claims changed, consistently, the invariant holds.
proof fn lemma_same_registry(before: LedgerView, after: LedgerView)
    requires
        ledger_wf(before),
        after.mods == before.mods,
        after.sequence_counter == before.sequence_counter,
        after.files == before.files || claims_consistent(before, after.files),
        after.inis == before.inis || claims_consistent(before, after.inis),
        after.gsvs == before.gsvs || claims_consistent(before, after.gsvs),
    ensures
        ledger_wf(after),
{
    assert forall|k: Seq<char>| is_known_owner(before, k) == is_known_owner(after, k) by {}
}

/// Removing one claim keeps a kind's claims consistent with the ledger.
proof fn lemma_remove_consistent<M>(v: LedgerView, cs: Seq<ClaimView<M>>, i: int)
    requires
        claims_consistent(v, cs),
        0 <= i < cs.len(),
    ensures
        forall|t: int| 0 <= t < cs.remove(i).len() ==> #[trigger] cs.remove(i)[t].sequence < v.sequence_counter
            && is_known_owner(v, cs.remove(i)[t].owner),
        originals_first(cs.remove(i)),
{
    let r = cs.remove(i);
    assert forall|a: int, b: int|
        #![trigger r[a], r[b]]
        0 <= a < b < r.len() && identity_of(r[a].resource) == identity_of(r[b].resource)
            implies r[b].owner != original_owner() by {
        let a0 = if a < i { a } else { a + 1 };
        let b0 = if b < i { b } else { b + 1 };
        assert(r[a] == cs[a0]);
        assert(r[b] == cs[b0]);
    }
    assert forall|t: int| 0 <= t < cs.remove(i).len() implies #[trigger] cs.remove(i)[t].sequence
        < v.sequence_counter && is_known_owner(v, cs.remove(i)[t].owner) by {
        if t < i {
            assert(cs.remove(i)[t] == cs[t]);
        } else {
            assert(cs.remove(i)[t] == cs[t + 1]);
        }
    }
}

/// The claims left after removing an owner's keep their relative order.
proof fn lemma_without_owner_order<M>(cs: Seq<ClaimView<M>>, owner: Seq<char>)
    ensures
        forall|a: int, b: int|
            #![trigger without_owner(cs, owner)[a], without_owner(cs, owner)[b]]
            0 <= a < b < without_owner(cs, owner).len() ==> exists|i: int, j: int|
                0 <= i < j < cs.len() && cs[i] == without_owner(cs, owner)[a] && cs[j]
                    == without_owner(cs, owner)[b],
    decreases cs.len(),
{
    if cs.len() > 0 {
        let d = cs.drop_last();
        lemma_without_owner_order(d, owner);
        lemma_without_owner_members(d, owner);
        let w = without_owner(cs, owner);
        let rest = without_owner(d, owner);
        assert forall|a: int, b: int|
            #![trigger w[a], w[b]]
            0 <= a < b < w.len() implies exists|i: int, j: int|
                0 <= i < j < cs.len() && cs[i] == w[a] && cs[j] == w[b] by {
            assert(w[a] == rest[a]);
            if b < rest.len() {
                assert(w[b] == rest[b]);
                let (i, j) = choose|i: int, j: int|
                    0 <= i < j < d.len() && d[i] == rest[a] && d[j] == rest[b];
                assert(cs[i] == d[i] && cs[j] == d[j]);
            } else {
                assert(w[b] == cs.last());
                assert(rest[a] == without_owner(d, owner)[a]);
                let i = choose|i: int| 0 <= i < d.len() && d[i] == without_owner(d, owner)[a];
                assert(cs[i] == d[i]);
                assert(cs[cs.len() - 1] == w[b]);
            }
        }
    }
}

/// Removing an owner's claims keeps original values first.
proof fn lemma_without_owner_originals_first<M>(cs: Seq<ClaimView<M>>, owner: Seq<char>)
    requires
        originals_first(cs),
    ensures
        originals_first(without_owner(cs, owner)),
{
    lemma_without_owner_order(cs, owner);
    let w = without_owner(cs, owner);
    assert forall|a: int, b: int|
        #![trigger w[a], w[b]]
        0 <= a < b < w.len() && identity_of(w[a].resource) == identity_of(w[b].resource)
            implies w[b].owner != original_owner() by {
        let (i, j) = choose|i: int, j: int| 0 <= i < j < cs.len() && cs[i] == w[a] && cs[j] == w[b];
        assert(cs[i] == w[a] && cs[j] == w[b]);
    }
}

/// The claims left after removing an owner's are claims of the original
/// list, none of them that owner's.
proof fn lemma_without_owner_members<M>(cs: Seq<ClaimView<M>>, owner: Seq<char>)
    ensures
        forall|t: int|
            0 <= t < without_owner(cs, owner).len() ==> (#[trigger] without_owner(cs, owner)[t]).owner
                != owner && exists|i: int| 0 <= i < cs.len() && cs[i] == without_owner(cs, owner)[t],
    decreases cs.len(),
{
    if cs.len() > 0 {
        lemma_without_owner_members(cs.drop_last(), owner);
        let rest = without_owner(cs.drop_last(), owner);
        assert forall|t: int| 0 <= t < without_owner(cs, owner).len() implies (
        #[trigger] without_owner(cs, owner)[t]).owner != owner && exists|i: int|
            0 <= i < cs.len() && cs[i] == without_owner(cs, owner)[t] by {
            if t < rest.len() {
                assert(without_owner(cs, owner)[t] == rest[t]);
                let i = choose|i: int| 0 <= i < cs.drop_last().len() && cs.drop_last()[i] == rest[t];
                assert(cs[i] == cs.drop_last()[i]);
            } else {
                assert(without_owner(cs, owner)[t] == cs[cs.len() - 1]);
            }
        }
    }
}

} // verus!
