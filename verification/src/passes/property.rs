//! Properties, the identities under which they are filed, and the store
//! that files them.

use vstd::prelude::*;

verus! {

/// A value that a pass attaches to an entity: it names its kind and can be
/// shown as text.
pub trait Property {
    /// The name of the kind of property.
    spec fn id_spec(&self) -> Seq<char>;

    /// The property as text.
    spec fn text_spec(&self) -> Seq<char>;

    fn property_id(&self) -> (r: String)
        ensures
            r@ == self.id_spec(),
    ;

    fn to_string(&self) -> (r: String)
        ensures
            r@ == self.text_spec(),
    ;
}

/// Anything with a stable identity under which properties can be filed.
pub trait PropertyHook {
    spec fn hook_id_spec(&self) -> Seq<char>;

    fn property_hook_id(&self) -> (r: String)
        ensures
            r@ == self.hook_id_spec(),
    ;
}

impl<T: PropertyHook> PropertyHook for &T {
    open spec fn hook_id_spec(&self) -> Seq<char> {
        (*self).hook_id_spec()
    }

    fn property_hook_id(&self) -> (r: String) {
        (*self).property_hook_id()
    }
}

/// Why an analysis could not be carried out.
#[derive(Debug, PartialEq)]
pub enum AnalysisError {
    /// A pass needs a feature that no pass before it has produced.
    MissingFeature { pass: String, feature: String },
    /// A property was to be filed under an identity that is not registered.
    UnknownHook(String),
    /// A pass failed for a reason of its own.
    PassFailed(String),
}

pub enum AnalysisErrorModel {
    MissingFeature { pass: Seq<char>, feature: Seq<char> },
    UnknownHook(Seq<char>),
    PassFailed(Seq<char>),
}

impl View for AnalysisError {
    type V = AnalysisErrorModel;

    open spec fn view(&self) -> AnalysisErrorModel {
        match self {
            AnalysisError::MissingFeature { pass, feature } => AnalysisErrorModel::MissingFeature {
                pass: pass@,
                feature: feature@,
            },
            AnalysisError::UnknownHook(id) => AnalysisErrorModel::UnknownHook(id@),
            AnalysisError::PassFailed(why) => AnalysisErrorModel::PassFailed(why@),
        }
    }
}

/// A property as the store files it: the name of its kind and its text.
#[derive(Debug, PartialEq)]
pub struct PropertyRecord {
    pub id: String,
    pub text: String,
}

impl PropertyRecord {
    /// The record of a property.
    pub fn of<P: Property>(property: &P) -> (r: Self)
        ensures
            r.id@ == property.id_spec(),
            r.text@ == property.text_spec(),
    {
        PropertyRecord { id: property.property_id(), text: property.to_string() }
    }
}

/// The properties filed under one identity, in the order in which they
/// were added.
pub struct HookEntry {
    pub id: String,
    pub properties: Vec<PropertyRecord>,
}

/// The store of properties: for each registered identity, the properties
/// added to it, in order. Of two entries with one identity only the first
/// counts.
pub struct PropertyManager {
    pub entries: Vec<HookEntry>,
}

/// The position of the first entry for `id`, or the length where there is
/// none.
pub open spec fn first_hook(entries: Seq<HookEntry>, id: Seq<char>) -> int
    decreases entries.len(),
{
    if entries.len() == 0 {
        0
    } else if entries[0].id@ == id {
        0
    } else {
        1 + first_hook(entries.drop_first(), id)
    }
}

pub proof fn lemma_first_hook(entries: Seq<HookEntry>, id: Seq<char>)
    ensures
        0 <= first_hook(entries, id) <= entries.len(),
        forall|j: int| 0 <= j < first_hook(entries, id) ==> (#[trigger] entries[j]).id@ != id,
        first_hook(entries, id) < entries.len() ==> entries[first_hook(entries, id)].id@ == id,
    decreases entries.len(),
{
    if entries.len() > 0 && entries[0].id@ != id {
        lemma_first_hook(entries.drop_first(), id);
        assert forall|j: int| 0 <= j < first_hook(entries, id) implies (
        #[trigger] entries[j]).id@ != id by {
            if j > 0 {
                assert(entries[j] == entries.drop_first()[j - 1]);
            }
        }
    }
}

/// The first entry for an identity is the one before which no entry has it.
pub proof fn lemma_first_hook_is(entries: Seq<HookEntry>, id: Seq<char>, i: int)
    requires
        0 <= i <= entries.len(),
        forall|j: int| 0 <= j < i ==> (#[trigger] entries[j]).id@ != id,
        i < entries.len() ==> entries[i].id@ == id,
    ensures
        first_hook(entries, id) == i,
    decreases entries.len(),
{
    if entries.len() > 0 && i > 0 {
        assert(entries[0].id@ != id);
        let t = entries.drop_first();
        assert forall|j: int| 0 <= j < i - 1 implies (#[trigger] t[j]).id@ != id by {
            assert(t[j] == entries[j + 1]);
        }
        lemma_first_hook_is(t, id, i - 1);
    }
}

/// Entries with the same identities at the same places find the same entry
/// for every identity.
pub proof fn lemma_same_ids(old: Seq<HookEntry>, new: Seq<HookEntry>, id: Seq<char>)
    requires
        new.len() == old.len(),
        forall|j: int| 0 <= j < old.len() ==> (#[trigger] new[j]).id@ == old[j].id@,
    ensures
        first_hook(new, id) == first_hook(old, id),
{
    lemma_first_hook(old, id);
    let i = first_hook(old, id);
    assert forall|j: int| 0 <= j < i implies (#[trigger] new[j]).id@ != id by {
        assert(old[j].id@ != id);
    }
    lemma_first_hook_is(new, id, i);
}

impl PropertyManager {
    /// Whether the identity is registered.
    pub open spec fn has_hook(&self, id: Seq<char>) -> bool {
        first_hook(self.entries@, id) < self.entries@.len()
    }

    /// The properties filed under the identity, in the order in which they
    /// were added; none where the identity is not registered.
    pub open spec fn properties_of(&self, id: Seq<char>) -> Seq<PropertyRecord> {
        if self.has_hook(id) {
            self.entries@[first_hook(self.entries@, id)].properties@
        } else {
            Seq::empty()
        }
    }

    /// Whether this store has grown from `old` by additions only: every
    /// identity of `old` is still registered, and what was filed under it
    /// is still there, at the start of what is filed under it now.
    pub open spec fn extends(&self, old: &PropertyManager) -> bool {
        forall|id: Seq<char>| #[trigger]
            old.has_hook(id) ==> self.has_hook(id) && old.properties_of(id).is_prefix_of(
                self.properties_of(id),
            )
    }

    /// Whether this store is `old` with `added` filed under `id` after what
    /// was there, and `id` registered.
    pub open spec fn is_with(&self, old: &PropertyManager, id: Seq<char>, added: Seq<PropertyRecord>) -> bool {
        &&& self.has_hook(id)
        &&& self.properties_of(id) == old.properties_of(id) + added
        &&& forall|other: Seq<char>|
            other != id ==> (#[trigger] self.has_hook(other)) == old.has_hook(other)
        &&& forall|other: Seq<char>|
            other != id ==> (#[trigger] self.properties_of(other)) == old.properties_of(other)
    }

    /// Whether this store is `old` with `added` filed under `id` after what
    /// was there, and the same identities registered.
    pub open spec fn is_grown(
        &self,
        old: &PropertyManager,
        id: Seq<char>,
        added: Seq<PropertyRecord>,
    ) -> bool {
        &&& forall|other: Seq<char>| (#[trigger] self.has_hook(other)) == old.has_hook(other)
        &&& self.properties_of(id) == old.properties_of(id) + added
        &&& forall|other: Seq<char>|
            other != id ==> (#[trigger] self.properties_of(other)) == old.properties_of(other)
    }

    /// A store with no identity registered.
    pub fn new() -> (r: Self)
        ensures
            forall|id: Seq<char>| !(#[trigger] r.has_hook(id)),
    {
        PropertyManager { entries: Vec::new() }
    }

    /// A store with the given identities registered and nothing filed.
    pub fn from_entries(entries: Vec<String>) -> (r: Self)
        ensures
            forall|id: Seq<char>| #[trigger]
                r.has_hook(id) <==> exists|i: int|
                    0 <= i < entries@.len() && (#[trigger] entries@[i])@ == id,
            forall|id: Seq<char>| (#[trigger] r.properties_of(id)).len() == 0,
    {
        let mut r = PropertyManager { entries: Vec::new() };
        let mut i: usize = 0;
        while i < entries.len()
            invariant
                i <= entries.len(),
                forall|id: Seq<char>| #[trigger]
                    r.has_hook(id) <==> exists|k: int| 0 <= k < i && (#[trigger] entries@[k])@ == id,
                forall|id: Seq<char>| (#[trigger] r.properties_of(id)).len() == 0,
            decreases entries.len() - i,
        {
            let ghost before = r;
            r.add_entry(entries[i].clone());
            proof {
                let added = entries@[i as int]@;
                assert forall|id: Seq<char>| #[trigger]
                    r.has_hook(id) <==> exists|k: int|
                        0 <= k < i + 1 && (#[trigger] entries@[k])@ == id by {
                    if id == added {
                        assert(entries@[i as int]@ == id);
                    } else {
                        assert(r.has_hook(id) == before.has_hook(id));
                        if before.has_hook(id) {
                            let k = choose|k: int| 0 <= k < i && (#[trigger] entries@[k])@ == id;
                            assert(0 <= k < i + 1 && entries@[k]@ == id);
                        }
                    }
                }
                assert forall|id: Seq<char>| (#[trigger] r.properties_of(id)).len() == 0 by {
                    if id != added {
                        assert(r.properties_of(id) == before.properties_of(id));
                    } else {
                        assert(before.properties_of(id).len() == 0);
                    }
                }
            }
            i = i + 1;
        }
        r
    }

    /// The position of the entry that counts for the identity.
    pub fn find(&self, id: &String) -> (r: Option<usize>)
        ensures
            match r {
                Some(i) => i < self.entries@.len() && i == first_hook(self.entries@, id@),
                None => !self.has_hook(id@),
            },
    {
        let mut i: usize = 0;
        while i < self.entries.len()
            invariant
                i <= self.entries.len(),
                forall|j: int| 0 <= j < i ==> (#[trigger] self.entries@[j]).id@ != id@,
            decreases self.entries.len() - i,
        {
            if self.entries[i].id == *id {
                proof {
                    lemma_first_hook_is(self.entries@, id@, i as int);
                }
                return Some(i);
            }
            i = i + 1;
        }
        proof {
            lemma_first_hook_is(self.entries@, id@, self.entries.len() as int);
        }
        None
    }

    /// Registers an identity. What is filed stays as it is.
    pub fn add_entry(&mut self, entry: String)
        ensures
            final(self).is_with(old(self), entry@, Seq::empty()),
    {
        match self.find(&entry) {
            Some(_) => {
                assert(self.properties_of(entry@) =~= old(self).properties_of(entry@)
                    + Seq::<PropertyRecord>::empty());
            },
            None => {
                let ghost id = entry@;
                self.entries.push(HookEntry { id: entry, properties: Vec::new() });
                proof {
                    let n = old(self).entries@.len() as int;
                    lemma_first_hook(old(self).entries@, id);
                    lemma_first_hook_is(self.entries@, id, n);
                    assert(self.properties_of(id) =~= old(self).properties_of(id)
                        + Seq::<PropertyRecord>::empty());
                    assert forall|other: Seq<char>| other != id implies (#[trigger] self.has_hook(
                        other,
                    )) == old(self).has_hook(other) by {
                        lemma_pushed_entry(*old(self), *self, other);
                    }
                    assert forall|other: Seq<char>| other != id implies (
                    #[trigger] self.properties_of(other)) == old(self).properties_of(other) by {
                        lemma_pushed_entry(*old(self), *self, other);
                    }
                }
            },
        }
    }

    /// Files a property under the identity of a hook. Fails, and changes
    /// nothing, where the identity is not registered.
    pub fn add_property_to_hook<H: PropertyHook>(
        &mut self,
        property_hook: H,
        property: PropertyRecord,
    ) -> (r: Result<(), AnalysisError>)
        ensures
            match r {
                Ok(_) => old(self).has_hook(property_hook.hook_id_spec()) && final(self).is_with(
                    old(self),
                    property_hook.hook_id_spec(),
                    seq![property],
                ),
                Err(e) => !old(self).has_hook(property_hook.hook_id_spec()) && e@
                    == AnalysisErrorModel::UnknownHook(property_hook.hook_id_spec()) && *final(self)
                    == *old(self),
            },
    {
        let property_hook_id = property_hook.property_hook_id();
        match self.find(&property_hook_id) {
            Some(i) => {
                self.entries[i].properties.push(property);
                proof {
                    let added = property;
                    let id = property_hook_id@;
                    lemma_changed_entry(*old(self), *self, i as int, added, id);
                    assert forall|other: Seq<char>| other != id implies (#[trigger] self.has_hook(
                        other,
                    )) == old(self).has_hook(other) by {
                        lemma_changed_entry(*old(self), *self, i as int, added, other);
                    }
                    assert forall|other: Seq<char>| other != id implies (
                    #[trigger] self.properties_of(other)) == old(self).properties_of(other) by {
                        lemma_first_hook(old(self).entries@, other);
                        lemma_first_hook(old(self).entries@, id);
                        lemma_changed_entry(*old(self), *self, i as int, added, other);
                    }
                }
                Ok(())
            },
            None => Err(AnalysisError::UnknownHook(property_hook_id)),
        }
    }

    /// What is filed under the identity of a hook, if it is registered.
    pub fn get_properties_by_hook<H: PropertyHook>(&self, property_hook: H) -> (r: Option<
        &Vec<PropertyRecord>,
    >)
        ensures
            match r {
                Some(v) => self.has_hook(property_hook.hook_id_spec()) && v@ == self.properties_of(
                    property_hook.hook_id_spec(),
                ),
                None => !self.has_hook(property_hook.hook_id_spec()),
            },
    {
        let property_hook_id = property_hook.property_hook_id();
        match self.find(&property_hook_id) {
            Some(i) => Some(&self.entries[i].properties),
            None => None,
        }
    }

    /// Files a property under an identity, which is registered if it was
    /// not.
    pub fn add_property_by_id(&mut self, property_hook_id: String, property: PropertyRecord)
        ensures
            final(self).is_with(
                old(self),
                property_hook_id@,
                seq![property],
            ),
    {
        let ghost id = property_hook_id@;
        match self.find(&property_hook_id) {
            Some(i) => {
                self.entries[i].properties.push(property);
                proof {
                    let added = property;
                    lemma_changed_entry(*old(self), *self, i as int, added, id);
                    assert forall|other: Seq<char>| other != id implies (#[trigger] self.has_hook(
                        other,
                    )) == old(self).has_hook(other) by {
                        lemma_changed_entry(*old(self), *self, i as int, added, other);
                    }
                    assert forall|other: Seq<char>| other != id implies (
                    #[trigger] self.properties_of(other)) == old(self).properties_of(other) by {
                        lemma_first_hook(old(self).entries@, other);
                        lemma_first_hook(old(self).entries@, id);
                        lemma_changed_entry(*old(self), *self, i as int, added, other);
                    }
                }
            },
            None => {
                let mut properties: Vec<PropertyRecord> = Vec::new();
                properties.push(property);
                self.entries.push(HookEntry { id: property_hook_id, properties: properties });
                proof {
                    let n = old(self).entries@.len() as int;
                    lemma_first_hook(old(self).entries@, id);
                    lemma_first_hook_is(self.entries@, id, n);
                    assert(self.properties_of(id) =~= old(self).properties_of(id) + seq![property]);
                    assert forall|other: Seq<char>| other != id implies (#[trigger] self.has_hook(
                        other,
                    )) == old(self).has_hook(other) by {
                        lemma_pushed_entry(*old(self), *self, other);
                    }
                    assert forall|other: Seq<char>| other != id implies (
                    #[trigger] self.properties_of(other)) == old(self).properties_of(other) by {
                        lemma_pushed_entry(*old(self), *self, other);
                    }
                }
            },
        }
    }

    /// Files properties under an identity, after what is filed there.
    /// Nothing changes where there is nothing to file. Fails, and changes
    /// nothing, where there is something to file and the identity is not
    /// registered.
    pub fn add_properties_by_id(&mut self, id: &String, properties: &mut Vec<PropertyRecord>) -> (r:
        Result<(), AnalysisError>)
        ensures
            final(properties)@.len() == 0 || r is Err,
            match r {
                Ok(_) => (old(properties)@.len() == 0 || old(self).has_hook(id@))
                    && final(self).is_grown(old(self), id@, old(properties)@),
                Err(e) => old(properties)@.len() > 0 && !old(self).has_hook(id@) && e@
                    == AnalysisErrorModel::UnknownHook(id@) && *final(self) == *old(self),
            },
    {
        if properties.len() == 0 {
            assert(self.properties_of(id@) =~= self.properties_of(id@) + old(properties)@);
            return Ok(());
        }
        match self.find(id) {
            Some(i) => {
                let ghost added = properties@;
                self.entries[i].properties.append(properties);
                proof {
                    lemma_grown_entry(*old(self), *self, i as int, added, id@);
                    let before = *old(self);
                    assert forall|other: Seq<char>| (#[trigger] self.has_hook(other))
                        == before.has_hook(other) by {
                        lemma_grown_entry(*old(self), *self, i as int, added, other);
                    }
                    assert forall|other: Seq<char>| other != id@ implies (
                    #[trigger] self.properties_of(other)) == old(self).properties_of(other) by {
                        lemma_first_hook(old(self).entries@, other);
                        lemma_first_hook(old(self).entries@, id@);
                        lemma_grown_entry(*old(self), *self, i as int, added, other);
                    }
                }
                Ok(())
            },
            None => Err(AnalysisError::UnknownHook(id.clone())),
        }
    }

    /// What is filed under an identity, if it is registered.
    pub fn get_properties_by_id(&self, property_hook_id: String) -> (r: Option<&Vec<PropertyRecord>>)
        ensures
            match r {
                Some(v) => self.has_hook(property_hook_id@) && v@ == self.properties_of(
                    property_hook_id@,
                ),
                None => !self.has_hook(property_hook_id@),
            },
    {
        match self.find(&property_hook_id) {
            Some(i) => Some(&self.entries[i].properties),
            None => None,
        }
    }
}

/// An entry added at the end changes nothing for another identity.
pub proof fn lemma_pushed_entry(old: PropertyManager, new: PropertyManager, other: Seq<char>)
    requires
        new.entries@.len() == old.entries@.len() + 1,
        forall|j: int| 0 <= j < old.entries@.len() ==> new.entries@[j] == old.entries@[j],
        new.entries@[old.entries@.len() as int].id@ != other,
    ensures
        new.has_hook(other) == old.has_hook(other),
        new.properties_of(other) == old.properties_of(other),
{
    let o = old.entries@;
    let n = new.entries@;
    lemma_first_hook(o, other);
    let i = first_hook(o, other);
    if i < o.len() {
        assert forall|j: int| 0 <= j < i implies (#[trigger] n[j]).id@ != other by {
            assert(o[j].id@ != other);
        }
        assert(n[i] == o[i]);
        lemma_first_hook_is(n, other, i);
    } else {
        assert forall|j: int| 0 <= j < n.len() implies (#[trigger] n[j]).id@ != other by {
            if j < o.len() {
                assert(o[j].id@ != other);
            }
        }
        lemma_first_hook_is(n, other, n.len() as int);
    }
}

/// A property added to the entry at `i` changes nothing but what is filed
/// in that entry: under the identity of the entry where the entry is the
/// one that counts for it.
pub proof fn lemma_changed_entry(
    old: PropertyManager,
    new: PropertyManager,
    i: int,
    added: PropertyRecord,
    id: Seq<char>,
)
    requires
        0 <= i < old.entries@.len(),
        new.entries@.len() == old.entries@.len(),
        new.entries@[i].id == old.entries@[i].id,
        new.entries@[i].properties@ == old.entries@[i].properties@.push(added),
        forall|j: int| 0 <= j < old.entries@.len() && j != i ==> new.entries@[j] == old.entries@[j],
    ensures
        new.has_hook(id) == old.has_hook(id),
        first_hook(old.entries@, id) != i ==> new.properties_of(id) == old.properties_of(id),
        first_hook(old.entries@, id) == i ==> new.properties_of(id) == old.properties_of(id)
            + seq![added],
{
    let o = old.entries@;
    let n = new.entries@;
    assert forall|j: int| 0 <= j < o.len() implies (#[trigger] n[j]).id@ == o[j].id@ by {
        if j != i {
            assert(n[j] == o[j]);
        }
    }
    lemma_same_ids(o, n, id);
    lemma_first_hook(o, id);
    let k = first_hook(o, id);
    if k < o.len() && k != i {
        assert(n[k] == o[k]);
    }
    if k == i {
        assert(new.properties_of(id) =~= old.properties_of(id) + seq![added]);
    }
}

/// Properties added to the entry at `i` change nothing but what is filed
/// in that entry.
pub proof fn lemma_grown_entry(
    old: PropertyManager,
    new: PropertyManager,
    i: int,
    added: Seq<PropertyRecord>,
    id: Seq<char>,
)
    requires
        0 <= i < old.entries@.len(),
        new.entries@.len() == old.entries@.len(),
        new.entries@[i].id == old.entries@[i].id,
        new.entries@[i].properties@ == old.entries@[i].properties@ + added,
        forall|j: int| 0 <= j < old.entries@.len() && j != i ==> new.entries@[j] == old.entries@[j],
    ensures
        new.has_hook(id) == old.has_hook(id),
        first_hook(old.entries@, id) != i ==> new.properties_of(id) == old.properties_of(id),
        first_hook(old.entries@, id) == i ==> new.properties_of(id) == old.properties_of(id)
            + added,
{
    let o = old.entries@;
    let n = new.entries@;
    assert forall|j: int| 0 <= j < o.len() implies (#[trigger] n[j]).id@ == o[j].id@ by {
        if j != i {
            assert(n[j] == o[j]);
        }
    }
    lemma_same_ids(o, n, id);
    lemma_first_hook(o, id);
    let k = first_hook(o, id);
    if k < o.len() && k != i {
        assert(n[k] == o[k]);
    }
}

/// A store extends itself.
pub proof fn lemma_extends_self(a: &PropertyManager)
    ensures
        a.extends(a),
{
}

/// Growth by additions composes.
pub proof fn lemma_extends_trans(a: &PropertyManager, b: &PropertyManager, c: &PropertyManager)
    requires
        b.extends(a),
        c.extends(b),
    ensures
        c.extends(a),
{
    assert forall|id: Seq<char>| #[trigger] a.has_hook(id) implies c.has_hook(id)
        && a.properties_of(id).is_prefix_of(c.properties_of(id)) by {
        assert(b.has_hook(id));
        let x = a.properties_of(id);
        let y = b.properties_of(id);
        let z = c.properties_of(id);
        assert(x.is_prefix_of(y));
        assert(y.is_prefix_of(z));
        assert(x =~= z.subrange(0, x.len() as int)) by {
            assert(x == y.subrange(0, x.len() as int));
            assert(y == z.subrange(0, y.len() as int));
        }
    }
}

/// A store with something added under one identity extends the store
/// before.
pub proof fn lemma_with_extends(
    new: &PropertyManager,
    old: &PropertyManager,
    id: Seq<char>,
    added: Seq<PropertyRecord>,
)
    requires
        new.is_with(old, id, added),
    ensures
        new.extends(old),
{
    assert forall|other: Seq<char>| #[trigger] old.has_hook(other) implies new.has_hook(other)
        && old.properties_of(other).is_prefix_of(new.properties_of(other)) by {
        if other == id {
            let x = old.properties_of(id);
            assert(x =~= (x + added).subrange(0, x.len() as int));
        } else {
            assert(new.has_hook(other) == old.has_hook(other));
            assert(new.properties_of(other) == old.properties_of(other));
            let x = old.properties_of(other);
            assert(x =~= x.subrange(0, x.len() as int));
        }
    }
}

} // verus!
