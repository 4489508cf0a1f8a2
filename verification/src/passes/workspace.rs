//! The workspace that a pipeline works on: a loop nest, an optional
//! architecture, the properties added so far and the features produced so
//! far.

use crate::passes::feature::{find_feature, has_feature, Feature};
use crate::passes::property::{
    lemma_extends_self,
    lemma_with_extends,
    AnalysisError,
    AnalysisErrorModel,
    PropertyRecord,
    PropertyHook,
    PropertyManager,
};
use crate::representations::arch::Arch;
use crate::representations::loops::LoopNest;
use crate::text::{digits_value, lemma_nat_digits, nat_digits, push_index};
use vstd::prelude::*;
use vstd::string::StringExecFns;

verus! {

pub struct Workspace {
    pub properties: PropertyManager,
    pub loop_nest: LoopNest,
    pub arch: Option<Arch>,
    pub available_features: Vec<Feature>,
}

/// The kinds of entities of a nest that properties are filed under.
#[derive(Debug, Clone, Copy, PartialEq, Eq, Structural)]
pub enum HookKind {
    /// An instruction of the body.
    Inst,
    /// An iterator of the nest.
    Iter,
}

/// The identity of an entity of the nest: its kind and its position in the
/// body or among the iterators.
#[derive(Debug, Clone, Copy, PartialEq, Eq, Structural)]
pub struct EntityHook {
    pub kind: HookKind,
    pub index: usize,
}

/// The identity of the entity of a kind at a position: `Inst#3`, `Iter#0`.
pub open spec fn entity_hook_id(kind: HookKind, index: nat) -> Seq<char> {
    match kind {
        HookKind::Inst => "Inst#"@ + nat_digits(index),
        HookKind::Iter => "Iter#"@ + nat_digits(index),
    }
}

/// The identity under which the properties of the workspace as a whole are
/// filed.
pub open spec fn workspace_hook_id() -> Seq<char> {
    "Workspace"@
}

/// Two entities have the same identity only if they are of the same kind
/// and at the same position.
pub proof fn lemma_entity_hook_ids_differ(k1: HookKind, i1: nat, k2: HookKind, i2: nat)
    ensures
        entity_hook_id(k1, i1) == entity_hook_id(k2, i2) ==> k1 == k2 && i1 == i2,
        entity_hook_id(k1, i1) != workspace_hook_id(),
{
    reveal_strlit("Inst#");
    reveal_strlit("Iter#");
    reveal_strlit("Workspace");
    let a = entity_hook_id(k1, i1);
    let b = entity_hook_id(k2, i2);
    lemma_nat_digits(i1);
    lemma_nat_digits(i2);
    assert(a[0] == 'I');
    assert(workspace_hook_id()[0] == 'W');
    if a == b {
        assert(a[1] == b[1]);
        assert(k1 == k2);
        assert(a.subrange(5, a.len() as int) =~= nat_digits(i1));
        assert(b.subrange(5, b.len() as int) =~= nat_digits(i2));
        assert(digits_value(nat_digits(i1)) == digits_value(nat_digits(i2)));
    }
}

impl EntityHook {
    /// The identity of the instruction at a position of the body.
    pub fn inst(index: usize) -> (r: Self)
        ensures
            r == (EntityHook { kind: HookKind::Inst, index: index }),
    {
        EntityHook { kind: HookKind::Inst, index: index }
    }

    /// The identity of the iterator at a position of the nest.
    pub fn iter(index: usize) -> (r: Self)
        ensures
            r == (EntityHook { kind: HookKind::Iter, index: index }),
    {
        EntityHook { kind: HookKind::Iter, index: index }
    }
}

impl PropertyHook for EntityHook {
    open spec fn hook_id_spec(&self) -> Seq<char> {
        entity_hook_id(self.kind, self.index as nat)
    }

    fn property_hook_id(&self) -> (r: String) {
        let mut id = match self.kind {
            HookKind::Inst => String::from_str("Inst#"),
            HookKind::Iter => String::from_str("Iter#"),
        };
        push_index(&mut id, self.index);
        assert(id@ == entity_hook_id(self.kind, self.index as nat));
        assert(self.hook_id_spec() == entity_hook_id(self.kind, self.index as nat));
        id
    }
}

impl PropertyHook for Workspace {
    open spec fn hook_id_spec(&self) -> Seq<char> {
        workspace_hook_id()
    }

    fn property_hook_id(&self) -> (r: String) {
        let id = String::from_str("Workspace");
        assert(self.hook_id_spec() == workspace_hook_id());
        id
    }
}

/// Whether an identity is that of an instruction or of an iterator of the
/// nest.
pub open spec fn is_entity_of(nest: &LoopNest, id: Seq<char>) -> bool {
    ||| exists|i: int|
        0 <= i < nest.body@.len() && id == #[trigger] entity_hook_id(HookKind::Inst, i as nat)
    ||| exists|i: int|
        0 <= i < nest.iters@.len() && id == #[trigger] entity_hook_id(HookKind::Iter, i as nat)
}

/// The properties of each list, list by list.
pub open spec fn lists_model(per: Seq<Vec<PropertyRecord>>) -> Seq<Seq<PropertyRecord>> {
    per.map_values(|v: Vec<PropertyRecord>| v@)
}

/// The position of the first entity of the kind that has something to file
/// and no registered identity, or the number of entities where there is
/// none.
pub open spec fn first_unfiled(
    store: &PropertyManager,
    kind: HookKind,
    per: Seq<Seq<PropertyRecord>>,
) -> int
    decreases per.len(),
{
    if per.len() == 0 {
        0
    } else {
        let before = first_unfiled(store, kind, per.drop_last());
        if before < per.len() - 1 {
            before
        } else if per.last().len() > 0 && !store.has_hook(
            entity_hook_id(kind, (per.len() - 1) as nat),
        ) {
            per.len() - 1
        } else {
            per.len() as int
        }
    }
}

/// Whether `new` is `old` with, for each position, the properties given
/// for it filed under the entity of the kind at that position.
pub open spec fn filed_by_index(
    new: &PropertyManager,
    old: &PropertyManager,
    kind: HookKind,
    per: Seq<Seq<PropertyRecord>>,
) -> bool {
    &&& forall|id: Seq<char>| (#[trigger] new.has_hook(id)) == old.has_hook(id)
    &&& forall|i: int|
        0 <= i < per.len() ==> new.properties_of(#[trigger] entity_hook_id(kind, i as nat))
            == old.properties_of(entity_hook_id(kind, i as nat)) + per[i]
    &&& forall|id: Seq<char>|
        (forall|i: int| 0 <= i < per.len() ==> id != #[trigger] entity_hook_id(kind, i as nat))
            ==> (#[trigger] new.properties_of(id)) == old.properties_of(id)
}

/// The outcome of filing properties by position: the positions before the
/// first that cannot be filed are filed, and the result is a failure that
/// names the identity of that position, or success where there is none.
pub open spec fn attach_outcome(
    new: &PropertyManager,
    old: &PropertyManager,
    kind: HookKind,
    per: Seq<Seq<PropertyRecord>>,
    r: Result<(), AnalysisError>,
) -> bool {
    let stop = first_unfiled(old, kind, per);
    &&& filed_by_index(new, old, kind, per.take(stop))
    &&& match r {
        Ok(_) => stop == per.len(),
        Err(e) => stop < per.len() && e@ == AnalysisErrorModel::UnknownHook(
            entity_hook_id(kind, stop as nat),
        ),
    }
}

/// A store in which properties were filed by position extends the store
/// before.
pub proof fn lemma_filed_extends(
    new: &PropertyManager,
    old: &PropertyManager,
    kind: HookKind,
    per: Seq<Seq<PropertyRecord>>,
)
    requires
        filed_by_index(new, old, kind, per),
    ensures
        new.extends(old),
{
    assert forall|id: Seq<char>| #[trigger] old.has_hook(id) implies new.has_hook(id)
        && old.properties_of(id).is_prefix_of(new.properties_of(id)) by {
        assert(new.has_hook(id) == old.has_hook(id));
        let x = old.properties_of(id);
        if exists|i: int| 0 <= i < per.len() && id == #[trigger] entity_hook_id(kind, i as nat) {
            let i = choose|i: int|
                0 <= i < per.len() && id == #[trigger] entity_hook_id(kind, i as nat);
            assert(new.properties_of(entity_hook_id(kind, i as nat)) == x + per[i]);
            assert(x =~= (x + per[i]).subrange(0, x.len() as int));
        } else {
            assert(new.properties_of(id) == x);
            assert(x =~= x.subrange(0, x.len() as int));
        }
    }
}

impl Workspace {
    /// Whether this workspace has come from `old` by additions only: the
    /// nest is the same, every property is still where it was, with others
    /// after it at most, and every feature is still available.
    pub open spec fn grows_from(&self, old: &Workspace) -> bool {
        &&& self.loop_nest == old.loop_nest
        &&& self.arch == old.arch
        &&& self.properties.extends(&old.properties)
        &&& forall|name: Seq<char>| #[trigger]
            has_feature(old.available_features@, name) ==> has_feature(
                self.available_features@,
                name,
            )
    }

    /// A workspace for a nest: the identity of each instruction and of each
    /// iterator is registered, nothing is filed, no feature is available.
    pub fn new(loop_nest: LoopNest, arch: Option<Arch>) -> (r: Self)
        ensures
            r.loop_nest == loop_nest,
            r.arch == arch,
            r.available_features@.len() == 0,
            forall|id: Seq<char>| #[trigger] r.properties.has_hook(id) <==> is_entity_of(&loop_nest, id),
            forall|id: Seq<char>| (#[trigger] r.properties.properties_of(id)).len() == 0,
    {
        let mut ids: Vec<String> = Vec::new();
        let mut i: usize = 0;
        while i < loop_nest.body.len()
            invariant
                i <= loop_nest.body.len(),
                ids@.len() == i,
                forall|k: int| 0 <= k < i ==> (#[trigger] ids@[k])@ == entity_hook_id(HookKind::Inst, k as nat),
            decreases loop_nest.body.len() - i,
        {
            ids.push(EntityHook::inst(i).property_hook_id());
            i = i + 1;
        }
        let n = loop_nest.body.len();
        let mut j: usize = 0;
        while j < loop_nest.iters.len()
            invariant
                j <= loop_nest.iters.len(),
                n == loop_nest.body.len(),
                ids@.len() == n + j,
                forall|k: int| 0 <= k < n ==> (#[trigger] ids@[k])@ == entity_hook_id(HookKind::Inst, k as nat),
                forall|k: int| 0 <= k < j ==> (#[trigger] ids@[n + k])@ == entity_hook_id(HookKind::Iter, k as nat),
            decreases loop_nest.iters.len() - j,
        {
            ids.push(EntityHook::iter(j).property_hook_id());
            j = j + 1;
        }
        let ghost all = ids@;
        let property_manager = PropertyManager::from_entries(ids);
        proof {
            assert forall|id: Seq<char>| #[trigger]
                property_manager.has_hook(id) <==> is_entity_of(&loop_nest, id) by {
                if property_manager.has_hook(id) {
                    let k = choose|k: int| 0 <= k < all.len() && (#[trigger] all[k])@ == id;
                    if k < n {
                        assert(id == entity_hook_id(HookKind::Inst, k as nat));
                    } else {
                        assert(all[n + (k - n)]@ == entity_hook_id(HookKind::Iter, (k - n) as nat));
                        assert(id == entity_hook_id(HookKind::Iter, (k - n) as nat));
                    }
                }
                if is_entity_of(&loop_nest, id) {
                    if exists|i: int|
                        0 <= i < loop_nest.body@.len() && id == #[trigger] entity_hook_id(
                            HookKind::Inst,
                            i as nat,
                        ) {
                        let i = choose|i: int|
                            0 <= i < loop_nest.body@.len() && id == #[trigger] entity_hook_id(
                                HookKind::Inst,
                                i as nat,
                            );
                        assert(all[i]@ == id);
                    } else {
                        let i = choose|i: int|
                            0 <= i < loop_nest.iters@.len() && id == #[trigger] entity_hook_id(
                                HookKind::Iter,
                                i as nat,
                            );
                        assert(all[n + i]@ == id);
                    }
                }
            }
        }
        Workspace {
            properties: property_manager,
            loop_nest,
            arch,
            available_features: Vec::new(),
        }
    }

    /// Files a property under the identity of a hook. Fails, and changes
    /// nothing, where the identity is not registered.
    pub fn add_property<H: PropertyHook>(
        &mut self,
        property_hook: H,
        property: PropertyRecord,
    ) -> (r: Result<(), AnalysisError>)
        ensures
            final(self).grows_from(old(self)),
            final(self).available_features == old(self).available_features,
            match r {
                Ok(_) => old(self).properties.has_hook(property_hook.hook_id_spec()) && final(self).properties.is_with(
                    &old(self).properties,
                    property_hook.hook_id_spec(),
                    seq![property],
                ),
                Err(e) => !old(self).properties.has_hook(property_hook.hook_id_spec()) && e@
                    == AnalysisErrorModel::UnknownHook(property_hook.hook_id_spec()) && *final(self)
                    == *old(self),
            },
    {
        let ghost id = property_hook.hook_id_spec();
        let r = self.properties.add_property_to_hook(property_hook, property);
        proof {
            if r is Ok {
                lemma_with_extends(&self.properties, &old(self).properties, id, seq![property]);
            } else {
                lemma_extends_self(&self.properties);
            }
        }
        r
    }

    /// Files a property of the workspace as a whole.
    pub fn add_global_property(&mut self, property: PropertyRecord)
        ensures
            final(self).grows_from(old(self)),
            final(self).available_features == old(self).available_features,
            final(self).properties.is_with(
                &old(self).properties,
                workspace_hook_id(),
                seq![property],
            ),
    {
        let id = self.property_hook_id();
        self.properties.add_property_by_id(id, property);
        proof {
            lemma_with_extends(&self.properties, &old(self).properties, id@, seq![property]);
        }
    }

    /// Files properties of the workspace as a whole, in their order.
    pub fn attach_global(&mut self, properties: Vec<PropertyRecord>)
        ensures
            final(self).grows_from(old(self)),
            final(self).available_features == old(self).available_features,
            final(self).properties.is_with(
                &old(self).properties,
                workspace_hook_id(),
                properties@,
            ),
    {
        let id = self.property_hook_id();
        let mut properties = properties;
        let ghost added = properties@;
        self.properties.add_entry(id.clone());
        let ghost registered = self.properties;
        let r = self.properties.add_properties_by_id(&id, &mut properties);
        proof {
            assert(registered.properties_of(workspace_hook_id()) + added =~= old(self).properties.properties_of(workspace_hook_id()) + added) by {
                assert(registered.properties_of(workspace_hook_id()) =~= old(self).properties.properties_of(workspace_hook_id()) + Seq::<PropertyRecord>::empty());
            }
            lemma_with_extends(
                &self.properties,
                &old(self).properties,
                workspace_hook_id(),
                added,
            );
        }
    }

    /// What is filed under the identity of a hook, if it is registered.
    pub fn get_properties<H: PropertyHook>(&self, property_hook: H) -> (r: Option<
        &Vec<PropertyRecord>,
    >)
        ensures
            match r {
                Some(v) => self.properties.has_hook(property_hook.hook_id_spec()) && v@
                    == self.properties.properties_of(property_hook.hook_id_spec()),
                None => !self.properties.has_hook(property_hook.hook_id_spec()),
            },
    {
        self.properties.get_properties_by_hook(property_hook)
    }

    /// Whether the feature is available.
    pub fn feature_available(&self, feature: &Feature) -> (b: bool)
        ensures
            b == has_feature(self.available_features@, feature.name@),
    {
        find_feature(&self.available_features, feature.name.as_str())
    }

    /// Whether a feature of that name is available.
    pub fn feature_available_str(&self, feature_str: &str) -> (b: bool)
        ensures
            b == has_feature(self.available_features@, feature_str@),
    {
        find_feature(&self.available_features, feature_str)
    }

    /// Makes a feature available, if it is not yet.
    pub fn add_feature(&mut self, name: String)
        ensures
            final(self).grows_from(old(self)),
            final(self).properties == old(self).properties,
            forall|n: Seq<char>| #[trigger]
                has_feature(final(self).available_features@, n) <==> (n == name@ || has_feature(
                    old(self).available_features@,
                    n,
                )),
    {
        proof {
            lemma_extends_self(&self.properties);
        }
        if self.feature_available_str(name.as_str()) {
            return ;
        }
        let ghost before = self.available_features@;
        let ghost added = name@;
        self.available_features.push(Feature { name: name });
        proof {
            let after = self.available_features@;
            assert forall|n: Seq<char>| #[trigger]
                has_feature(after, n) <==> (n == added || has_feature(before, n)) by {
                if has_feature(before, n) {
                    let i = choose|i: int| 0 <= i < before.len() && (#[trigger] before[i]).name@ == n;
                    assert(after[i].name@ == n);
                }
                if n == added {
                    assert(after[before.len() as int].name@ == n);
                }
                if has_feature(after, n) {
                    let i = choose|i: int| 0 <= i < after.len() && (#[trigger] after[i]).name@ == n;
                    if i < before.len() {
                        assert(before[i].name@ == n);
                    }
                }
            }
        }
    }

    /// Files, for each position, the properties given for it under the
    /// entity of the kind at that position, in the order of the positions.
    /// The filing ends with a failure at the first position that has
    /// something to file and no registered identity; what was filed before
    /// stays filed.
    pub fn attach_by_index(&mut self, kind: HookKind, per: Vec<Vec<PropertyRecord>>) -> (r: Result<
        (),
        AnalysisError,
    >)
        ensures
            final(self).grows_from(old(self)),
            final(self).available_features == old(self).available_features,
            attach_outcome(
                &final(self).properties,
                &old(self).properties,
                kind,
                lists_model(per@),
                r,
            ),
    {
        let ghost all = lists_model(per@);
        let mut lists = per;
        let mut k: usize = 0;
        proof {
            lemma_attach_start(&old(self).properties, kind, all);
        }
        while k < lists.len()
            invariant
                k <= lists.len(),
                lists@.len() == all.len(),
                all == lists_model(per@),
                forall|j: int| k <= j < lists@.len() ==> (#[trigger] lists@[j])@ == all[j],
                self.loop_nest == old(self).loop_nest,
                self.arch == old(self).arch,
                self.available_features == old(self).available_features,
                first_unfiled(&old(self).properties, kind, all.take(k as int)) == k,
                filed_by_index(&self.properties, &old(self).properties, kind, all.take(k as int)),
            decreases lists.len() - k,
        {
            let id = (EntityHook { kind: kind, index: k }).property_hook_id();
            let ghost before = self.properties;
            let ghost added = lists@[k as int]@;
            let r = self.properties.add_properties_by_id(&id, &mut lists[k]);
            proof {
                assert(added == all[k as int]);
                lemma_attach_step(&old(self).properties, &before, &self.properties, kind, all, k as int);
            }
            match r {
                Ok(_) => {},
                Err(e) => {
                    proof {
                        lemma_unfiled_stays(&old(self).properties, kind, all, k + 1);
                        lemma_filed_extends(
                            &self.properties,
                            &old(self).properties,
                            kind,
                            all.take(k as int),
                        );
                    }
                    return Err(e);
                },
            }
            k = k + 1;
        }
        proof {
            assert(all.take(all.len() as int) =~= all);
            lemma_filed_extends(&self.properties, &old(self).properties, kind, all);
        }
        Ok(())
    }
}

/// Before anything is filed, nothing has been filed.
pub proof fn lemma_attach_start(old: &PropertyManager, kind: HookKind, all: Seq<Seq<PropertyRecord>>)
    ensures
        first_unfiled(old, kind, all.take(0)) == 0,
        filed_by_index(old, old, kind, all.take(0)),
{
    assert(all.take(0) =~= Seq::<Seq<PropertyRecord>>::empty());
    assert forall|i: int| 0 <= i < all.take(0).len() implies old.properties_of(
        #[trigger] entity_hook_id(kind, i as nat),
    ) == old.properties_of(entity_hook_id(kind, i as nat)) + all.take(0)[i] by {}
}

/// Once a position is the first that cannot be filed, it stays the first
/// however many positions follow.
pub proof fn lemma_unfiled_stays(
    old: &PropertyManager,
    kind: HookKind,
    all: Seq<Seq<PropertyRecord>>,
    k: int,
)
    requires
        0 <= k <= all.len(),
        first_unfiled(old, kind, all.take(k)) < k,
    ensures
        first_unfiled(old, kind, all) == first_unfiled(old, kind, all.take(k)),
    decreases all.len() - k,
{
    if k < all.len() {
        assert(all.take(k + 1).drop_last() =~= all.take(k));
        lemma_unfiled_stays(old, kind, all, k + 1);
    } else {
        assert(all.take(k) =~= all);
    }
}

/// Filing at one more position: where it succeeds, the positions up to and
/// with it are filed; where it fails, it is the first position that cannot
/// be filed.
pub proof fn lemma_attach_step(
    old: &PropertyManager,
    before: &PropertyManager,
    after: &PropertyManager,
    kind: HookKind,
    all: Seq<Seq<PropertyRecord>>,
    k: int,
)
    requires
        0 <= k < all.len(),
        first_unfiled(old, kind, all.take(k)) == k,
        filed_by_index(before, old, kind, all.take(k)),
        (all[k].len() == 0 || before.has_hook(entity_hook_id(kind, k as nat))) ==> after.is_grown(
            before,
            entity_hook_id(kind, k as nat),
            all[k],
        ),
        !(all[k].len() == 0 || before.has_hook(entity_hook_id(kind, k as nat))) ==> *after
            == *before,
    ensures
        (all[k].len() == 0 || before.has_hook(entity_hook_id(kind, k as nat))) ==> first_unfiled(
            old,
            kind,
            all.take(k + 1),
        ) == k + 1 && filed_by_index(after, old, kind, all.take(k + 1)),
        !(all[k].len() == 0 || before.has_hook(entity_hook_id(kind, k as nat))) ==> first_unfiled(
            old,
            kind,
            all.take(k + 1),
        ) == k,
{
    let next = all.take(k + 1);
    let id = entity_hook_id(kind, k as nat);
    assert(next.drop_last() =~= all.take(k));
    assert(next.last() == all[k]);
    assert(before.has_hook(id) == old.has_hook(id));
    if all[k].len() == 0 || before.has_hook(id) {
        assert forall|i: int| 0 <= i < k implies id != #[trigger] entity_hook_id(kind, i as nat) by {
            lemma_entity_hook_ids_differ(kind, k as nat, kind, i as nat);
        }
        assert(before.properties_of(id) == old.properties_of(id));
        assert forall|other: Seq<char>| (#[trigger] after.has_hook(other)) == old.has_hook(
            other,
        ) by {
            assert(after.has_hook(other) == before.has_hook(other));
        }
        assert forall|i: int| 0 <= i < next.len() implies after.properties_of(
            #[trigger] entity_hook_id(kind, i as nat),
        ) == old.properties_of(entity_hook_id(kind, i as nat)) + next[i] by {
            let hi = entity_hook_id(kind, i as nat);
            if i < k {
                lemma_entity_hook_ids_differ(kind, k as nat, kind, i as nat);
                assert(after.properties_of(hi) == before.properties_of(hi));
                assert(before.properties_of(hi) == old.properties_of(hi) + all.take(k)[i]);
            }
        }
        assert forall|other: Seq<char>|
            (forall|i: int| 0 <= i < next.len() ==> other != #[trigger] entity_hook_id(kind, i as nat))
            implies (#[trigger] after.properties_of(other)) == old.properties_of(other) by {
            assert(other != entity_hook_id(kind, k as nat));
            assert forall|i: int| 0 <= i < all.take(k).len() implies other != #[trigger] entity_hook_id(
                kind,
                i as nat,
            ) by {
                assert(0 <= i < next.len());
            }
            assert(after.properties_of(other) == before.properties_of(other));
            assert(before.properties_of(other) == old.properties_of(other));
        }
    }
}

} // verus!
