//! Hash sets and maps of `rustc_hash`, keyed by integers and tuples of integers.
//!
//! `FxHashSet` and `FxHashMap` are std's `HashSet` and `HashMap` with the
//! deterministic `FxHasher`. Their contents are spoken of through the views
//! that vstd gives to std's collections (`Set<K>` and `Map<K, V>`). The
//! functions of this module are the only places where the collections are
//! touched; their contracts are trusted, not proved.

use vstd::prelude::*;
use rustc_hash::FxHashMap;
use rustc_hash::FxHashSet;
use rustc_hash::FxHasher;
use std::hash::BuildHasherDefault;
use std::hash::Hash;

verus! {

#[verifier::external_type_specification]
#[verifier::external_body]
pub struct ExFxHasher(FxHasher);

#[verifier::external_type_specification]
#[verifier::external_body]
#[verifier::reject_recursive_types(H)]
pub struct ExBuildHasherDefault<H>(BuildHasherDefault<H>);

/// Keys made of integers only. For these std's `Eq` is equality of the
/// values and std's `Hash` is a function of the value, which is what the
/// contracts below rest on.
pub trait IntKey {

}

impl IntKey for u32 {

}

impl IntKey for (u32, u32) {

}

impl IntKey for (u32, u32, u32) {

}

impl IntKey for ((u32, u32, u32), u32) {

}

impl IntKey for (u32, (u32, u32, u32)) {

}

impl IntKey for ((u32, u32, u32), (u32, u32, u32)) {

}

/// `FxHashSet::default()`: a set that holds nothing.
#[verifier::external_body]
pub(crate) fn set_new<K: IntKey + Copy + Eq + Hash>() -> (s: FxHashSet<K>)
    ensures
        s@ == Set::<K>::empty(),
{
    FxHashSet::default()
}

/// `HashSet::insert`: the key is in the set afterwards, nothing else
/// changes, and the result says whether the key was new.
#[verifier::external_body]
pub(crate) fn set_insert<K: IntKey + Copy + Eq + Hash>(s: &mut FxHashSet<K>, k: K) -> (fresh: bool)
    ensures
        final(s)@ == old(s)@.insert(k),
        fresh == !old(s)@.contains(k),
{
    s.insert(k)
}

/// `HashSet::contains`: whether the key is in the set.
#[verifier::external_body]
pub(crate) fn set_contains<K: IntKey + Copy + Eq + Hash>(s: &FxHashSet<K>, k: K) -> (found: bool)
    ensures
        found == s@.contains(k),
{
    s.contains(&k)
}

/// `HashSet::iter`, collected: every key of the set exactly once, in the
/// order in which the table is walked, of which nothing is claimed.
#[verifier::external_body]
pub(crate) fn set_to_vec<K: IntKey + Copy + Eq + Hash>(s: &FxHashSet<K>) -> (keys: Vec<K>)
    ensures
        keys@.no_duplicates(),
        keys@.to_set() == s@,
{
    s.iter().copied().collect()
}

/// `FxHashMap::default()`: a map that holds nothing.
#[verifier::external_body]
pub(crate) fn map_new<K: IntKey + Copy + Eq + Hash, V>() -> (m: FxHashMap<K, V>)
    ensures
        m@ == (Map::<K, V>::empty()),
{
    FxHashMap::default()
}

/// `HashMap::insert`: the key maps to the value afterwards, nothing else
/// changes, and the result is the value that the key had before.
#[verifier::external_body]
pub(crate) fn map_insert<K: IntKey + Copy + Eq + Hash, V>(m: &mut FxHashMap<K, V>, k: K, v: V) -> (before: Option<V>)
    ensures
        final(m)@ == old(m)@.insert(k, v),
        before == (if old(m)@.contains_key(k) { Some(old(m)@[k]) } else { None }),
{
    m.insert(k, v)
}

/// `HashMap::remove`: the key is gone afterwards, nothing else changes, and
/// the result is the value that the key had before.
#[verifier::external_body]
pub(crate) fn map_remove<K: IntKey + Copy + Eq + Hash, V>(m: &mut FxHashMap<K, V>, k: K) -> (before: Option<V>)
    ensures
        final(m)@ == old(m)@.remove(k),
        before == (if old(m)@.contains_key(k) { Some(old(m)@[k]) } else { None }),
{
    m.remove(&k)
}

/// `HashMap::get`: the value of the key, where it has one.
#[verifier::external_body]
pub(crate) fn map_get<K: IntKey + Copy + Eq + Hash, V>(m: &FxHashMap<K, V>, k: K) -> (value: Option<&V>)
    ensures
        value == (if m@.contains_key(k) { Some(&m@[k]) } else { None }),
{
    m.get(&k)
}

/// `HashMap::keys`, collected: every key of the map exactly once, in the
/// order in which the table is walked, of which nothing is claimed.
#[verifier::external_body]
pub(crate) fn map_keys<K: IntKey + Copy + Eq + Hash, V>(m: &FxHashMap<K, V>) -> (keys: Vec<K>)
    ensures
        keys@.no_duplicates(),
        keys@.to_set() == m@.dom(),
{
    m.keys().copied().collect()
}

/// `HashMap::drain`, collected: the map is empty afterwards and the result
/// holds each of its pairs exactly once, in the order in which the table is
/// walked, of which nothing is claimed.
#[verifier::external_body]
pub(crate) fn map_drain<K: IntKey + Copy + Eq + Hash, V>(m: &mut FxHashMap<K, V>) -> (pairs: Vec<(K, V)>)
    ensures
        final(m)@ == (Map::<K, V>::empty()),
        pairs_of(pairs@, old(m)@),
{
    m.drain().collect()
}

/// `HashMap::into_values`, collected: the values of the map, one for each
/// key, in the order in which the table is walked, of which nothing is
/// claimed.
#[verifier::external_body]
pub(crate) fn map_into_values<K: IntKey + Copy + Eq + Hash, V>(m: FxHashMap<K, V>) -> (values: Vec<V>)
    ensures
        values_of(values@, m@),
{
    m.into_values().collect()
}

/// `pairs` lists the pairs of `m`, each key once.
pub open spec fn pairs_of<K, V>(pairs: Seq<(K, V)>, m: Map<K, V>) -> bool {
    &&& forall|i: int| 0 <= i < pairs.len() ==> m.contains_pair((#[trigger] pairs[i]).0, pairs[i].1)
    &&& forall|i: int, j: int|
        0 <= i < j < pairs.len() ==> (#[trigger] pairs[i]).0 != (#[trigger] pairs[j]).0
    &&& forall|k: K| m.contains_key(k) ==> exists|i: int| 0 <= i < pairs.len() && (#[trigger] pairs[i]).0 == k
}

/// `values` lists the values of `m`, one for each key: some numbering of
/// the keys of `m` by the positions of `values` sends each key to its value.
pub open spec fn values_of<K, V>(values: Seq<V>, m: Map<K, V>) -> bool {
    exists|keys: Seq<K>|
        {
            &&& #[trigger] keys.len() == values.len()
            &&& keys.no_duplicates()
            &&& keys.to_set() == m.dom()
            &&& forall|i: int| 0 <= i < keys.len() ==> m[keys[i]] == #[trigger] values[i]
        }
}

} // verus!
