//! The mapping of loops onto the kinds of hardware dimension.

use crate::assoc::{find_key, first_key, lemma_first_key, lemma_first_key_is, named};
use crate::loop_prob::Loop;
use vstd::prelude::*;

verus! {

/// An association list from the names of loops: the first entry for a name
/// is the one that counts.
pub struct Mapping {
    pub mapping: Vec<(String, MappingType)>,
}

#[derive(Debug, Clone, Copy, PartialEq, Eq, Structural)]
pub enum MappingType {
    Spatial,
    InterTile,
    IntraTile,
}

/// What a mapping maps a name to.
pub open spec fn mapped(m: Seq<(Seq<char>, MappingType)>, name: Seq<char>) -> Option<MappingType> {
    let i = first_key(m, name);
    if i < m.len() {
        Some(m[i].1)
    } else {
        None
    }
}

impl Mapping {
    /// A mapping that maps no loop.
    pub fn new() -> (r: Self)
        ensures
            r.mapping@.len() == 0,
    {
        Mapping { mapping: Vec::new() }
    }

    /// The mapping with the loop mapped to the kind; every other loop is
    /// mapped as before.
    pub fn add_mapping(self, loop_: &Loop, mapping_type: MappingType) -> (r: Self)
        ensures
            mapped(named(r.mapping@), loop_.iter_name@) == Some(mapping_type),
            forall|other: Seq<char>|
                other != loop_.iter_name@ ==> #[trigger] mapped(named(r.mapping@), other) == mapped(
                    named(self.mapping@),
                    other,
                ),
    {
        let mut r = self;
        let ghost before = named(r.mapping@);
        let ghost key = loop_.iter_name@;
        match find_key(&r.mapping, &loop_.iter_name) {
            Some(i) => {
                r.mapping.set(i, (loop_.iter_name.clone(), mapping_type));
                proof {
                    let after = named(r.mapping@);
                    assert(after =~= before.update(i as int, (key, mapping_type)));
                    lemma_first_key(before, key);
                    lemma_first_key_is(after, key, i as int);
                    assert forall|other: Seq<char>| other != key implies #[trigger] mapped(
                        after,
                        other,
                    ) == mapped(before, other) by {
                        let k = first_key(before, other);
                        lemma_first_key(before, other);
                        lemma_first_key_is(after, other, k);
                    }
                }
            },
            None => {
                r.mapping.push((loop_.iter_name.clone(), mapping_type));
                proof {
                    let after = named(r.mapping@);
                    assert(after =~= before.push((key, mapping_type)));
                    lemma_first_key(before, key);
                    lemma_first_key_is(after, key, before.len() as int);
                    assert forall|other: Seq<char>| other != key implies #[trigger] mapped(
                        after,
                        other,
                    ) == mapped(before, other) by {
                        let k = first_key(before, other);
                        lemma_first_key(before, other);
                        if k < before.len() {
                            lemma_first_key_is(after, other, k);
                        } else {
                            lemma_first_key_is(after, other, after.len() as int);
                        }
                    }
                }
            },
        }
        r
    }

    /// The kind that the loop of a name is mapped to.
    pub fn get_mapping_by_iter_name(&self, iter_name: &str) -> (r: Option<&MappingType>)
        ensures
            match r {
                Some(t) => mapped(named(self.mapping@), iter_name@) == Some(*t),
                None => mapped(named(self.mapping@), iter_name@) is None,
            },
    {
        let key = iter_name.to_owned();
        match find_key(&self.mapping, &key) {
            Some(i) => Some(&self.mapping[i].1),
            None => None,
        }
    }
}

} // verus!
