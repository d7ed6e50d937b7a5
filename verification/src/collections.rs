//! Helpers for walking std hash collections with integer keys.
use vstd::prelude::*;
use std::collections::{HashMap, HashSet};
use std::hash::Hash;
use vstd::std_specs::iter::IteratorSpec;

verus! {

broadcast use vstd::std_specs::hash::group_hash_axioms;

/// The keys of a map, each once, in the map's iteration order.
pub fn map_keys<K: Copy + Eq + Hash, V>(m: &HashMap<K, V>) -> (ks: Vec<K>)
    requires
        vstd::std_specs::hash::obeys_key_model::<K>(),
    ensures
        ks@.to_set() == m@.dom(),
        ks@.no_duplicates(),
        ks@.len() == m@.dom().len(),
{
    let mut ks: Vec<K> = Vec::new();
    let ghost all = vstd::std_specs::hash::spec_keys_iter(m).remaining();
    for k in it: m.keys()
        invariant
            it.seq() == all,
            ks@ == all.take(it.index() as int).map_values(|r: &K| *r),
    {
        ks.push(*k);
        proof {
            assert(all.take(it.index() + 1).map_values(|r: &K| *r) =~= ks@);
        }
    }
    proof {
        assert(all.take(all.len() as int) =~= all);
        assert(ks@ =~= all.map_values(|r: &K| *r));
        assert(ks@ =~= all.unref());
    }
    ks
}

/// The elements of a set, each once, in the set's iteration order.
pub fn set_elements<K: Copy + Eq + Hash>(s: &HashSet<K>) -> (es: Vec<K>)
    requires
        vstd::std_specs::hash::obeys_key_model::<K>(),
    ensures
        es@.to_set() == s@,
        es@.no_duplicates(),
        es@.len() == s@.len(),
{
    let mut es: Vec<K> = Vec::new();
    let ghost all = vstd::std_specs::hash::spec_hash_keys_iter(s).remaining();
    for k in it: s.iter()
        invariant
            it.seq() == all,
            es@ == all.take(it.index() as int).map_values(|r: &K| *r),
    {
        es.push(*k);
        proof {
            assert(all.take(it.index() + 1).map_values(|r: &K| *r) =~= es@);
        }
    }
    proof {
        assert(all.take(all.len() as int) =~= all);
        assert(es@ =~= all.map_values(|r: &K| *r));
        assert(es@ =~= all.unref());
    }
    es
}

} // verus!
