//! Association lists keyed by names. The first entry for a name is the one
//! that counts.

use vstd::prelude::*;

verus! {

/// The position of the first entry for `key`, or the length where there is
/// none.
pub open spec fn first_key<V>(m: Seq<(Seq<char>, V)>, key: Seq<char>) -> int
    decreases m.len(),
{
    if m.len() == 0 {
        0
    } else if m[0].0 == key {
        0
    } else {
        1 + first_key(m.drop_first(), key)
    }
}

pub proof fn lemma_first_key<V>(m: Seq<(Seq<char>, V)>, key: Seq<char>)
    ensures
        0 <= first_key(m, key) <= m.len(),
        forall|j: int| 0 <= j < first_key(m, key) ==> (#[trigger] m[j]).0 != key,
        first_key(m, key) < m.len() ==> m[first_key(m, key)].0 == key,
    decreases m.len(),
{
    if m.len() > 0 && m[0].0 != key {
        lemma_first_key(m.drop_first(), key);
        assert forall|j: int| 0 <= j < first_key(m, key) implies (#[trigger] m[j]).0 != key by {
            if j > 0 {
                assert(m[j] == m.drop_first()[j - 1]);
            }
        }
    }
}

/// The first entry for a key is the one before which no entry has the key.
pub proof fn lemma_first_key_is<V>(m: Seq<(Seq<char>, V)>, key: Seq<char>, i: int)
    requires
        0 <= i <= m.len(),
        forall|j: int| 0 <= j < i ==> (#[trigger] m[j]).0 != key,
        i < m.len() ==> m[i].0 == key,
    ensures
        first_key(m, key) == i,
    decreases m.len(),
{
    if m.len() > 0 && i > 0 {
        assert(m[0].0 != key);
        let t = m.drop_first();
        assert forall|j: int| 0 <= j < i - 1 implies (#[trigger] t[j]).0 != key by {
            assert(t[j] == m[j + 1]);
        }
        lemma_first_key_is(t, key, i - 1);
    }
}

/// The entries of a list of named values, with each name as its text.
pub open spec fn named<V>(v: Seq<(String, V)>) -> Seq<(Seq<char>, V)> {
    v.map_values(|e: (String, V)| (e.0@, e.1))
}

/// The position of the first entry for `key`.
pub fn find_key<V>(m: &Vec<(String, V)>, key: &String) -> (r: Option<usize>)
    ensures
        match r {
            Some(i) => i < m.len() && i == first_key(named(m@), key@),
            None => first_key(named(m@), key@) == m.len(),
        },
{
    let mut i: usize = 0;
    while i < m.len()
        invariant
            i <= m.len(),
            forall|j: int| 0 <= j < i ==> (#[trigger] named(m@)[j]).0 != key@,
        decreases m.len() - i,
    {
        if m[i].0 == *key {
            proof {
                lemma_first_key_is(named(m@), key@, i as int);
            }
            return Some(i);
        }
        i = i + 1;
    }
    proof {
        lemma_first_key_is(named(m@), key@, m.len() as int);
    }
    None
}

} // verus!
