//! The coordinate of one INI setting, compared without regard to ASCII case.
use vstd::prelude::*;
use crate::fold::{compare_codes, eq_ignore_case, fold_text, folded, lex_cmp};
use core::cmp::Ordering;

verus! {

/// One INI file edit coordinate: file, section and key.
///
/// Equality, hashing and ordering ignore ASCII case, field by field, as INI
/// files do.
#[derive(Debug, Clone)]
pub struct IniEdit {
    pub file: String,
    pub section: String,
    pub key: String,
}

/// The ordering of two coordinates: file first, then section, then key, each
/// compared on its ASCII-lowercased code points.
pub open spec fn ini_cmp(a: IniEdit, b: IniEdit) -> int {
    let f = lex_cmp(folded(a.file@), folded(b.file@));
    let s = lex_cmp(folded(a.section@), folded(b.section@));
    if f != 0 {
        f
    } else if s != 0 {
        s
    } else {
        lex_cmp(folded(a.key@), folded(b.key@))
    }
}

/// The key a coordinate is hashed by: its three fields ASCII-lowercased,
/// each followed by a separator that no character can produce.
pub open spec fn hash_key(e: IniEdit) -> Seq<u32> {
    folded(e.file@) + seq![0x110000u32] + folded(e.section@) + seq![0x110000u32] + folded(e.key@)
}

/// Every sequence compares equal to itself.
proof fn lemma_lex_cmp_refl(a: Seq<u32>)
    ensures
        lex_cmp(a, a) == 0,
    decreases a.len(),
{
    if a.len() > 0 {
        lemma_lex_cmp_refl(a.drop_first());
    }
}

/// Coordinates that differ only in ASCII case are the same setting: they
/// are equal, are hashed by the same key, compare equal, and compare alike
/// against any third coordinate.
pub proof fn lemma_case_variants_alike(a: IniEdit, b: IniEdit, c: IniEdit)
    requires
        folded(a.file@) == folded(b.file@),
        folded(a.section@) == folded(b.section@),
        folded(a.key@) == folded(b.key@),
    ensures
        a.identity() == b.identity(),
        hash_key(a) == hash_key(b),
        ini_cmp(a, b) == 0,
        ini_cmp(a, c) == ini_cmp(b, c),
        ini_cmp(c, a) == ini_cmp(c, b),
{
    lemma_lex_cmp_refl(folded(a.file@));
    lemma_lex_cmp_refl(folded(a.section@));
    lemma_lex_cmp_refl(folded(a.key@));
}

/// Maps a comparison result to an `Ordering`.
pub open spec fn ordering_of(c: int) -> Ordering {
    if c < 0 {
        Ordering::Less
    } else if c == 0 {
        Ordering::Equal
    } else {
        Ordering::Greater
    }
}

impl IniEdit {
    /// What identifies the setting: the three fields, ASCII-lowercased.
    pub open spec fn identity(&self) -> Seq<Seq<u32>> {
        seq![folded(self.file@), folded(self.section@), folded(self.key@)]
    }

    /// Creates a new coordinate.
    pub fn new(file: &str, section: &str, key: &str) -> (r: IniEdit)
        ensures
            r.file@ == file@,
            r.section@ == section@,
            r.key@ == key@,
    {
        IniEdit {
            file: String::from_str(file),
            section: String::from_str(section),
            key: String::from_str(key),
        }
    }

    /// A copy of this coordinate.
    pub fn duplicate(&self) -> (r: IniEdit)
        ensures
            r == *self,
    {
        IniEdit { file: self.file.clone(), section: self.section.clone(), key: self.key.clone() }
    }

    /// Whether both coordinates name the same setting.
    pub fn same_setting(&self, other: &IniEdit) -> (r: bool)
        ensures
            r == (self.identity() == other.identity()),
    {
        let r = eq_ignore_case(self.file.as_str(), other.file.as_str()) && eq_ignore_case(
            self.section.as_str(),
            other.section.as_str(),
        ) && eq_ignore_case(self.key.as_str(), other.key.as_str());
        proof {
            if self.identity() == other.identity() {
                assert(self.identity()[0] == other.identity()[0]);
                assert(self.identity()[1] == other.identity()[1]);
                assert(self.identity()[2] == other.identity()[2]);
            }
            if r {
                assert(self.identity() =~= other.identity());
            }
        }
        r
    }

    /// Orders two coordinates field by field, ignoring ASCII case.
    pub fn compare(&self, other: &IniEdit) -> (r: Ordering)
        ensures
            r == ordering_of(ini_cmp(*self, *other)),
    {
        let f = compare_codes(&fold_text(self.file.as_str()), &fold_text(other.file.as_str()));
        match f {
            Ordering::Equal => {},
            _ => {
                return f;
            },
        }
        let s = compare_codes(
            &fold_text(self.section.as_str()),
            &fold_text(other.section.as_str()),
        );
        match s {
            Ordering::Equal => {},
            _ => {
                return s;
            },
        }
        compare_codes(&fold_text(self.key.as_str()), &fold_text(other.key.as_str()))
    }

    /// The folded code points of the three fields, with a separator after
    /// each that no character can produce.
    pub fn folded_key(&self) -> (r: Vec<u32>)
        ensures
            r@ == hash_key(*self),
    {
        let mut r = fold_text(self.file.as_str());
        r.push(0x110000);
        let mut s = fold_text(self.section.as_str());
        r.append(&mut s);
        r.push(0x110000);
        let mut k = fold_text(self.key.as_str());
        r.append(&mut k);
        r
    }

    /// The coordinate written as `file[section].key`.
    pub fn to_string(&self) -> (r: String)
        ensures
            r@ == self.file@ + "["@ + self.section@ + "]."@ + self.key@,
    {
        let mut r = self.file.clone();
        r.append("[");
        r.append(self.section.as_str());
        r.append("].");
        r.append(self.key.as_str());
        r
    }
}

impl PartialEq for IniEdit {
    fn eq(&self, other: &IniEdit) -> (r: bool) {
        self.same_setting(other)
    }
}

impl vstd::std_specs::cmp::PartialEqSpecImpl for IniEdit {
    open spec fn obeys_eq_spec() -> bool {
        true
    }

    open spec fn eq_spec(&self, other: &IniEdit) -> bool {
        self.identity() == other.identity()
    }
}

impl Eq for IniEdit {

}

impl PartialOrd for IniEdit {
    fn partial_cmp(&self, other: &IniEdit) -> (r: Option<Ordering>) {
        Some(self.compare(other))
    }
}

impl vstd::std_specs::cmp::PartialOrdSpecImpl for IniEdit {
    open spec fn obeys_partial_cmp_spec() -> bool {
        true
    }

    open spec fn partial_cmp_spec(&self, other: &IniEdit) -> Option<Ordering> {
        Some(ordering_of(ini_cmp(*self, *other)))
    }
}

/// Feeds the folded key into a hasher.
///
/// Relies on `<Vec<u32> as Hash>::hash`, of which nothing is assumed.
#[verifier::external_body]
fn hash_folded<H: core::hash::Hasher>(key: &Vec<u32>, state: &mut H) {
    core::hash::Hash::hash(key, state)
}

impl core::hash::Hash for IniEdit {
    fn hash<H: core::hash::Hasher>(&self, state: &mut H) {
        let key = self.folded_key();
        hash_folded(&key, state);
    }
}

} // verus!
