//! The ownership stack engine: for each resource, the claims that mods made
//! on it, ordered by sequence number, oldest first.
use vstd::prelude::*;
use crate::fold::{eq_ignore_case, folded, same_text};
use crate::ini_edit::IniEdit;

verus! {

/// What identifies a resource given by its text fields: each field,
/// ASCII-lowercased.
pub open spec fn identity_of(parts: Seq<Seq<char>>) -> Seq<Seq<u32>> {
    parts.map_values(|p: Seq<char>| folded(p))
}

/// A key that names a resource by one or more text fields; two keys name the
/// same resource exactly when their identities are equal.
pub trait ResourceKey: Sized {
    spec fn parts(&self) -> Seq<Seq<char>>;

    fn same_resource(&self, other: &Self) -> (r: bool)
        ensures
            r == (identity_of(self.parts()) == identity_of(other.parts())),
    ;

    fn copy_key(&self) -> (r: Self)
        ensures
            r.parts() == self.parts(),
    ;
}

/// A value recorded with a claim.
pub trait ClaimValue: Sized {
    type Model;

    spec fn model(&self) -> Self::Model;

    fn copy_value(&self) -> (r: Self)
        ensures
            r.model() == self.model(),
    ;
}

impl ResourceKey for String {
    /// A path or setting key is one field.
    open spec fn parts(&self) -> Seq<Seq<char>> {
        seq![self@]
    }

    fn same_resource(&self, other: &String) -> (r: bool) {
        let r = eq_ignore_case(self.as_str(), other.as_str());
        proof {
            let a = identity_of(self.parts());
            let b = identity_of(other.parts());
            assert(a[0] == folded(self@));
            assert(b[0] == folded(other@));
            if r {
                assert(a =~= b);
            }
        }
        r
    }

    fn copy_key(&self) -> (r: String) {
        self.clone()
    }
}

impl ResourceKey for IniEdit {
    /// An INI coordinate is three fields: file, section and key.
    open spec fn parts(&self) -> Seq<Seq<char>> {
        seq![self.file@, self.section@, self.key@]
    }

    fn same_resource(&self, other: &IniEdit) -> (r: bool) {
        proof {
            assert(identity_of(self.parts()) =~= self.identity());
            assert(identity_of(other.parts()) =~= other.identity());
        }
        self.same_setting(other)
    }

    fn copy_key(&self) -> (r: IniEdit) {
        self.duplicate()
    }
}

impl ClaimValue for () {
    type Model = ();

    open spec fn model(&self) -> () {
        ()
    }

    fn copy_value(&self) -> (r: ()) {
        ()
    }
}

impl ClaimValue for String {
    type Model = Seq<char>;

    open spec fn model(&self) -> Seq<char> {
        self@
    }

    fn copy_value(&self) -> (r: String) {
        self.clone()
    }
}

impl ClaimValue for Vec<u8> {
    type Model = Seq<u8>;

    open spec fn model(&self) -> Seq<u8> {
        self@
    }

    fn copy_value(&self) -> (r: Vec<u8>) {
        let r = self.clone();
        assert(r@ =~= self@);
        r
    }
}

/// One ownership record: `owner` claimed `resource`, with `value`, at
/// `sequence`.
pub struct Claim<K, V> {
    pub resource: K,
    pub owner: String,
    pub value: V,
    pub sequence: u64,
}

/// The content of an ownership record; the resource is given by its text
/// fields.
pub struct ClaimView<M> {
    pub resource: Seq<Seq<char>>,
    pub owner: Seq<char>,
    pub value: M,
    pub sequence: u64,
}

impl<K: ResourceKey, V: ClaimValue> Claim<K, V> {
    pub open spec fn model(&self) -> ClaimView<V::Model> {
        ClaimView {
            resource: self.resource.parts(),
            owner: self.owner@,
            value: self.value.model(),
            sequence: self.sequence,
        }
    }
}

/// The claims on the resource `id`, in the order of `cs`.
pub open spec fn stack<M>(cs: Seq<ClaimView<M>>, id: Seq<Seq<u32>>) -> Seq<
    ClaimView<M>,
>
    decreases cs.len(),
{
    if cs.len() == 0 {
        Seq::empty()
    } else {
        let rest = stack(cs.drop_last(), id);
        if identity_of(cs.last().resource) == id {
            rest.push(cs.last())
        } else {
            rest
        }
    }
}

/// The resources that `owner` claimed, in the order of `cs`.
pub open spec fn resources_of<M>(cs: Seq<ClaimView<M>>, owner: Seq<char>) -> Seq<Seq<Seq<char>>>
    decreases cs.len(),
{
    if cs.len() == 0 {
        Seq::empty()
    } else {
        let rest = resources_of(cs.drop_last(), owner);
        if cs.last().owner == owner {
            rest.push(cs.last().resource)
        } else {
            rest
        }
    }
}

/// The claims of `cs` that `owner` did not make.
pub open spec fn without_owner<M>(cs: Seq<ClaimView<M>>, owner: Seq<char>) -> Seq<
    ClaimView<M>,
>
    decreases cs.len(),
{
    if cs.len() == 0 {
        Seq::empty()
    } else {
        let rest = without_owner(cs.drop_last(), owner);
        if cs.last().owner == owner {
            rest
        } else {
            rest.push(cs.last())
        }
    }
}

/// The owners of a list of claims, in its order.
pub open spec fn owners<M>(s: Seq<ClaimView<M>>) -> Seq<Seq<char>> {
    s.map_values(|c: ClaimView<M>| c.owner)
}

/// Whether `owner` holds a claim on the resource `id`.
pub open spec fn holds<M>(
    cs: Seq<ClaimView<M>>,
    id: Seq<Seq<u32>>,
    owner: Seq<char>,
) -> bool {
    exists|i: int| 0 <= i < cs.len() && identity_of(cs[i].resource) == id && cs[i].owner == owner
}

/// The index in `cs` of the claim of `owner` on `id`, where there is one.
pub open spec fn claim_index<M>(
    cs: Seq<ClaimView<M>>,
    id: Seq<Seq<u32>>,
    owner: Seq<char>,
) -> int {
    choose|i: int| 0 <= i < cs.len() && identity_of(cs[i].resource) == id && cs[i].owner == owner
}

/// Sequence numbers strictly increase along the claims, and no owner holds
/// two claims on one resource.
pub open spec fn claims_wf<M>(cs: Seq<ClaimView<M>>) -> bool {
    &&& forall|i: int, j: int| 0 <= i < j < cs.len() ==> cs[i].sequence < cs[j].sequence
    &&& forall|i: int, j: int|
        0 <= i < cs.len() && 0 <= j < cs.len() && i != j && cs[i].owner == cs[j].owner
            ==> identity_of(cs[i].resource) != identity_of(cs[j].resource)
}

/// The claims on every resource of one kind.
pub struct OwnershipTable<K, V> {
    claims: Vec<Claim<K, V>>,
}

proof fn lemma_take_step<T>(s: Seq<T>, j: int)
    requires
        0 <= j < s.len(),
    ensures
        s.take(j + 1).drop_last() == s.take(j),
        s.take(j + 1).last() == s[j],
        s.take(j + 1).len() == j + 1,
{
    assert(s.take(j + 1).drop_last() =~= s.take(j));
}

/// Every claim in the stack of `id` is a claim of `cs` on `id`.
pub proof fn lemma_stack_members<M>(cs: Seq<ClaimView<M>>, id: Seq<Seq<u32>>)
    ensures
        forall|t: int|
            0 <= t < stack(cs, id).len() ==> exists|i: int|
                0 <= i < cs.len() && cs[i] == #[trigger] stack(cs, id)[t]
                    && identity_of(cs[i].resource) == id,
    decreases cs.len(),
{
    if cs.len() > 0 {
        lemma_stack_members(cs.drop_last(), id);
        assert forall|t: int| 0 <= t < stack(cs, id).len() implies exists|i: int|
            0 <= i < cs.len() && cs[i] == #[trigger] stack(cs, id)[t]
                && identity_of(cs[i].resource) == id by {
            if t < stack(cs.drop_last(), id).len() {
                let i = choose|i: int|
                    0 <= i < cs.drop_last().len() && cs.drop_last()[i] == #[trigger] stack(
                        cs.drop_last(),
                        id,
                    )[t] && identity_of(cs.drop_last()[i].resource) == id;
                assert(cs[i] == cs.drop_last()[i]);
            } else {
                assert(cs[cs.len() - 1] == stack(cs, id)[t]);
            }
        }
    }
}

impl<K: ResourceKey, V: ClaimValue> OwnershipTable<K, V> {
    /// The claims, oldest first.
    pub closed spec fn model(&self) -> Seq<ClaimView<V::Model>> {
        self.claims@.map_values(|c: Claim<K, V>| c.model())
    }

    /// A table with no claims.
    pub fn new() -> (r: Self)
        ensures
            r.model() == Seq::<ClaimView<V::Model>>::empty(),
    {
        let r = OwnershipTable { claims: Vec::new() };
        assert(r.model() =~= Seq::<ClaimView<V::Model>>::empty());
        r
    }

    /// A copy of the owner of the claim at `i`.
    pub fn owner_at(&self, i: usize) -> (r: String)
        requires
            i < self.model().len(),
        ensures
            r@ == self.model()[i as int].owner,
    {
        self.claims[i].owner.clone()
    }

    /// A copy of the value of the claim at `i`.
    pub fn value_at(&self, i: usize) -> (r: V)
        requires
            i < self.model().len(),
        ensures
            r.model() == self.model()[i as int].value,
    {
        self.claims[i].value.copy_value()
    }

    /// The index of the claim of `owner` on `key`, if there is one.
    pub fn position(&self, key: &K, owner: &str) -> (r: Option<usize>)
        ensures
            r is None <==> !holds(self.model(), identity_of(key.parts()), owner@),
            r matches Some(i) ==> i < self.model().len() && self.model()[i as int].owner
                == owner@ && identity_of(self.model()[i as int].resource) == identity_of(key.parts()),
    {
        let mut i: usize = 0;
        while i < self.claims.len()
            invariant
                i <= self.claims.len(),
                forall|j: int|
                    0 <= j < i ==> !(identity_of(self.model()[j].resource) == identity_of(key.parts())
                        && self.model()[j].owner == owner@),
            decreases self.claims.len() - i,
        {
            let c = &self.claims[i];
            assert(self.model()[i as int] == c.model());
            if same_text(c.owner.as_str(), owner) && c.resource.same_resource(key) {
                return Some(i);
            }
            i = i + 1;
        }
        None
    }

    /// The indices of the claims on `key`, oldest first.
    pub fn stack_indices(&self, key: &K) -> (r: Vec<usize>)
        ensures
            r@.len() == stack(self.model(), identity_of(key.parts())).len(),
            forall|t: int| 0 <= t < r@.len() ==> #[trigger] r@[t] < self.model().len(),
            forall|t: int|
                0 <= t < r@.len() ==> self.model()[#[trigger] r@[t] as int] == stack(
                    self.model(),
                    identity_of(key.parts()),
                )[t],
    {
        let ghost id = identity_of(key.parts());
        let ghost cs = self.model();
        let mut out: Vec<usize> = Vec::new();
        let mut i: usize = 0;
        while i < self.claims.len()
            invariant
                i <= self.claims.len(),
                cs == self.model(),
                cs.len() == self.claims@.len(),
                id == identity_of(key.parts()),
                out@.len() == stack(cs.take(i as int), id).len(),
                forall|t: int| 0 <= t < out@.len() ==> #[trigger] out@[t] < i,
                forall|t: int|
                    0 <= t < out@.len() ==> cs[out@[t] as int] == #[trigger] stack(
                        cs.take(i as int),
                        id,
                    )[t],
            decreases self.claims.len() - i,
        {
            proof {
                lemma_take_step(cs, i as int);
            }
            assert(cs[i as int] == self.claims[i as int].model());
            let ghost before = out@;
            let ghost prev = stack(cs.take(i as int), id);
            assert(prev.len() == before.len());
            if self.claims[i].resource.same_resource(key) {
                out.push(i);
                assert(stack(cs.take(i + 1), id) == prev.push(cs[i as int]));
            } else {
                assert(stack(cs.take(i + 1), id) == prev);
            }
            assert forall|t: int| 0 <= t < out@.len() implies out@[t] < i + 1 && cs[out@[t] as int]
                == #[trigger] stack(cs.take(i + 1), id)[t] by {
                if t < before.len() {
                    assert(out@[t] == before[t]);
                    assert(stack(cs.take(i + 1), id)[t] == prev[t]);
                    assert(cs[before[t] as int] == stack(cs.take(i as int), id)[t]);
                }
            }
            i = i + 1;
        }
        assert(cs.take(cs.len() as int) =~= cs);
        assert forall|t: int| 0 <= t < out@.len() implies self.model()[#[trigger] out@[t] as int]
            == stack(self.model(), identity_of(key.parts()))[t] by {
            assert(stack(cs.take(i as int), id)[t] == stack(cs, id)[t]);
        }
        out
    }

    /// The owners of the claims on `key`, oldest first.
    pub fn installers(&self, key: &K) -> (r: Vec<String>)
        ensures
            r@.map_values(|s: String| s@) == owners(stack(self.model(), identity_of(key.parts()))),
    {
        let idx = self.stack_indices(key);
        let ghost st = stack(self.model(), identity_of(key.parts()));
        let mut out: Vec<String> = Vec::new();
        let mut t: usize = 0;
        while t < idx.len()
            invariant
                t <= idx@.len(),
                idx@.len() == st.len(),
                st == stack(self.model(), identity_of(key.parts())),
                forall|u: int| 0 <= u < idx@.len() ==> #[trigger] idx@[u] < self.model().len(),
                forall|u: int|
                    0 <= u < idx@.len() ==> self.model()[#[trigger] idx@[u] as int] == st[u],
                out@.len() == t,
                forall|u: int| 0 <= u < t ==> #[trigger] out@[u]@ == st[u].owner,
            decreases idx.len() - t,
        {
            let k = idx[t];
            assert(self.model()[k as int] == st[t as int]);
            out.push(self.owner_at(k));
            t = t + 1;
        }
        assert(out@.map_values(|s: String| s@) =~= owners(st));
        out
    }

    /// The index of the claim `depth` places below the top of the stack of
    /// `key`: 0 is the current owner's claim, 1 the previous owner's.
    pub fn from_top(&self, key: &K, depth: usize) -> (r: Option<usize>)
        ensures
            r is None <==> stack(self.model(), identity_of(key.parts())).len() <= depth,
            r matches Some(i) ==> i < self.model().len() && self.model()[i as int] == stack(
                self.model(),
                identity_of(key.parts()),
            )[stack(self.model(), identity_of(key.parts())).len() - 1 - depth],
    {
        let idx = self.stack_indices(key);
        if idx.len() <= depth {
            None
        } else {
            let t = idx.len() - 1 - depth;
            Some(idx[t])
        }
    }

    /// The resources that `owner` claimed, oldest claim first.
    pub fn claimed_by(&self, owner: &str) -> (r: Vec<K>)
        ensures
            r@.map_values(|k: K| k.parts()) == resources_of(self.model(), owner@),
    {
        let ghost cs = self.model();
        let mut out: Vec<K> = Vec::new();
        let mut i: usize = 0;
        while i < self.claims.len()
            invariant
                i <= self.claims.len(),
                cs == self.model(),
                out@.map_values(|k: K| k.parts()) == resources_of(cs.take(i as int), owner@),
            decreases self.claims.len() - i,
        {
            proof {
                lemma_take_step(cs, i as int);
            }
            assert(cs[i as int] == self.claims[i as int].model());
            let ghost before = out@;
            if same_text(self.claims[i].owner.as_str(), owner) {
                out.push(self.claims[i].resource.copy_key());
                assert(out@.map_values(|k: K| k.parts()) =~= before.map_values(|k: K| k.parts()).push(
                    cs[i as int].resource,
                ));
            }
            i = i + 1;
        }
        assert(cs.take(cs.len() as int) =~= cs);
        out
    }

    /// A copy of the claim at `i`.
    fn copy_claim(&self, i: usize) -> (r: Claim<K, V>)
        requires
            i < self.claims.len(),
        ensures
            r.model() == self.model()[i as int],
    {
        let c = &self.claims[i];
        Claim {
            resource: c.resource.copy_key(),
            owner: c.owner.clone(),
            value: c.value.copy_value(),
            sequence: c.sequence,
        }
    }

    /// Copies of all claims, oldest first.
    pub fn claims(&self) -> (r: Vec<Claim<K, V>>)
        ensures
            r@.map_values(|c: Claim<K, V>| c.model()) == self.model(),
    {
        let mut out: Vec<Claim<K, V>> = Vec::new();
        let mut i: usize = 0;
        while i < self.claims.len()
            invariant
                i <= self.claims.len(),
                out@.len() == i,
                forall|j: int| 0 <= j < i ==> #[trigger] out@[j].model() == self.model()[j],
            decreases self.claims.len() - i,
        {
            out.push(self.copy_claim(i));
            i = i + 1;
        }
        assert(out@.map_values(|c: Claim<K, V>| c.model()) =~= self.model());
        out
    }

    /// A copy of the whole table.
    pub fn duplicate(&self) -> (r: Self)
        ensures
            r.model() == self.model(),
    {
        let r = OwnershipTable { claims: self.claims() };
        assert(r.model() =~= self.model());
        r
    }

    /// Appends a claim that is newer than every claim in the table.
    pub fn push_claim(&mut self, resource: K, owner: String, value: V, sequence: u64)
        requires
            claims_wf(old(self).model()),
            !holds(old(self).model(), identity_of(resource.parts()), owner@),
            forall|i: int| 0 <= i < old(self).model().len() ==> old(self).model()[i].sequence < sequence,
        ensures
            final(self).model() == old(self).model().push(
                ClaimView { resource: resource.parts(), owner: owner@, value: value.model(), sequence },
            ),
            claims_wf(final(self).model()),
    {
        let ghost c = Claim { resource, owner, value, sequence };
        let ghost m = old(self).model();
        self.claims.push(Claim { resource, owner, value, sequence });
        assert(self.model() =~= m.push(c.model()));
        assert forall|i: int, j: int|
            0 <= i < self.model().len() && 0 <= j < self.model().len() && i != j
                && self.model()[i].owner == self.model()[j].owner implies identity_of(self.model()[i].resource)
            != identity_of(self.model()[j].resource) by {
            if i == m.len() as int {
                assert(!(identity_of(m[j].resource) == identity_of(c.model().resource) && m[j].owner == c.owner@));
            } else if j == m.len() as int {
                assert(!(identity_of(m[i].resource) == identity_of(c.model().resource) && m[i].owner == c.owner@));
            }
        }
    }

    /// Removes the claim at `i`.
    pub fn remove_claim(&mut self, i: usize)
        requires
            i < old(self).model().len(),
            claims_wf(old(self).model()),
        ensures
            final(self).model() == old(self).model().remove(i as int),
            claims_wf(final(self).model()),
    {
        let ghost m = old(self).model();
        self.claims.remove(i);
        assert(self.model() =~= m.remove(i as int));
        assert forall|a: int, b: int| 0 <= a < b < self.model().len() implies self.model()[a].sequence
            < self.model()[b].sequence by {
            let a0 = if a < i { a } else { a + 1 };
            let b0 = if b < i { b } else { b + 1 };
            assert(self.model()[a] == m[a0]);
            assert(self.model()[b] == m[b0]);
        }
        assert forall|a: int, b: int|
            0 <= a < self.model().len() && 0 <= b < self.model().len() && a != b
                && self.model()[a].owner == self.model()[b].owner implies identity_of(self.model()[a].resource)
            != identity_of(self.model()[b].resource) by {
            let a0 = if a < i { a } else { a + 1 };
            let b0 = if b < i { b } else { b + 1 };
            assert(self.model()[a] == m[a0]);
            assert(self.model()[b] == m[b0]);
        }
    }

    /// Replaces the value of the claim at `i`.
    pub fn set_value(&mut self, i: usize, value: V)
        requires
            i < old(self).model().len(),
            claims_wf(old(self).model()),
        ensures
            final(self).model() == old(self).model().update(
                i as int,
                ClaimView { value: value.model(), ..old(self).model()[i as int] },
            ),
            claims_wf(final(self).model()),
    {
        let ghost m = old(self).model();
        let ghost v = value.model();
        let old_claim = self.claims.remove(i);
        let c = Claim {
            resource: old_claim.resource,
            owner: old_claim.owner,
            value,
            sequence: old_claim.sequence,
        };
        self.claims.insert(i, c);
        assert(self.model() =~= m.update(i as int, ClaimView { value: v, ..m[i as int] }));
        assert forall|a: int, b: int|
            0 <= a < self.model().len() && 0 <= b < self.model().len() && a != b
                && self.model()[a].owner == self.model()[b].owner implies identity_of(self.model()[a].resource)
            != identity_of(self.model()[b].resource) by {
            assert(self.model()[a].owner == m[a].owner && self.model()[a].resource == m[a].resource);
            assert(self.model()[b].owner == m[b].owner && self.model()[b].resource == m[b].resource);
        }
        assert forall|a: int, b: int| 0 <= a < b < self.model().len() implies self.model()[a].sequence
            < self.model()[b].sequence by {
            assert(self.model()[a].sequence == m[a].sequence);
            assert(self.model()[b].sequence == m[b].sequence);
        }
    }

    /// Removes every claim that `owner` made.
    pub fn remove_owner(&mut self, owner: &str)
        requires
            claims_wf(old(self).model()),
        ensures
            final(self).model() == without_owner(old(self).model(), owner@),
            claims_wf(final(self).model()),
    {
        let ghost cs = self.model();
        let mut out: Vec<Claim<K, V>> = Vec::new();
        let mut i: usize = 0;
        let ghost mut src: Seq<int> = Seq::empty();
        while i < self.claims.len()
            invariant
                i <= self.claims.len(),
                cs == self.model(),
                claims_wf(cs),
                out@.map_values(|c: Claim<K, V>| c.model()) == without_owner(cs.take(i as int), owner@),
                src.len() == out@.len(),
                forall|t: int| 0 <= t < src.len() ==> 0 <= #[trigger] src[t] < i && out@[t].model() == cs[src[t]],
                forall|t: int, u: int| 0 <= t < u < src.len() ==> src[t] < src[u],
            decreases self.claims.len() - i,
        {
            proof {
                lemma_take_step(cs, i as int);
            }
            assert(cs[i as int] == self.claims[i as int].model());
            if !same_text(self.claims[i].owner.as_str(), owner) {
                let c = self.copy_claim(i);
                let ghost before = out@;
                out.push(c);
                proof {
                    src = src.push(i as int);
                    assert(out@.map_values(|c: Claim<K, V>| c.model()) =~= before.map_values(
                        |c: Claim<K, V>| c.model(),
                    ).push(cs[i as int]));
                    assert forall|t: int| 0 <= t < src.len() implies 0 <= #[trigger] src[t] < i + 1
                        && out@[t].model() == cs[src[t]] by {
                        if t < before.len() {
                            assert(out@[t] == before[t]);
                        }
                    }
                }
            }
            i = i + 1;
        }
        assert(cs.take(cs.len() as int) =~= cs);
        let ghost outm = out@.map_values(|c: Claim<K, V>| c.model());
        self.claims = out;
        assert(self.model() =~= outm);
        assert forall|a: int, b: int| 0 <= a < b < outm.len() implies outm[a].sequence
            < outm[b].sequence by {
            assert(outm[a] == cs[src[a]]);
            assert(outm[b] == cs[src[b]]);
        }
        assert forall|a: int, b: int|
            0 <= a < outm.len() && 0 <= b < outm.len() && a != b && outm[a].owner == outm[b].owner
                implies identity_of(outm[a].resource) != identity_of(outm[b].resource) by {
            assert(outm[a] == cs[src[a]]);
            assert(outm[b] == cs[src[b]]);
            if a < b {
                assert(src[a] < src[b]);
            } else {
                assert(src[b] < src[a]);
            }
        }
    }
}

} // verus!
