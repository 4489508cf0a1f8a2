//! Features: tags that say which families of properties a workspace holds.

use vstd::prelude::*;

verus! {

/// A tag that a pass produces and that later passes may require.
#[derive(Debug, PartialEq)]
pub struct Feature {
    pub name: String,
}

impl Clone for Feature {
    fn clone(&self) -> (r: Self)
        ensures
            r == *self,
    {
        Feature { name: self.name.clone() }
    }
}

/// Whether a feature of that name is among the features.
pub open spec fn has_feature(features: Seq<Feature>, name: Seq<char>) -> bool {
    exists|i: int| 0 <= i < features.len() && (#[trigger] features[i]).name@ == name
}

/// Whether a feature of that name is among the features.
pub fn find_feature(features: &Vec<Feature>, name: &str) -> (b: bool)
    ensures
        b == has_feature(features@, name@),
{
    let wanted = name.to_owned();
    let mut i: usize = 0;
    while i < features.len()
        invariant
            i <= features.len(),
            wanted@ == name@,
            forall|j: int| 0 <= j < i ==> (#[trigger] features@[j]).name@ != name@,
        decreases features.len() - i,
    {
        if wanted == features[i].name {
            return true;
        }
        i = i + 1;
    }
    false
}

} // verus!
