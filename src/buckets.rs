//! The FNV-hashed maps and sets that the index keeps its buckets in.

use fnv::{FnvHashMap, FnvHashSet};
use std::hash::Hash;
use vstd::prelude::*;
use vstd::std_specs::hash::obeys_key_model;

verus! {

/// The FNV hasher, carried opaquely as the maps' hashing state.
#[verifier::external_type_specification]
#[verifier::external_body]
pub struct ExFnvHasher(fnv::FnvHasher);

/// The builder of default-constructed hashers that the FNV maps use.
#[verifier::external_type_specification]
#[verifier::external_body]
#[verifier::reject_recursive_types(H)]
pub struct ExBuildHasherDefault<H>(std::hash::BuildHasherDefault<H>);

/// Relies on `HashMap::get` (with the FNV hasher): the value stored under `k`, if any.
#[verifier::external_body]
pub(crate) fn map_get<'a, K: Eq + Hash, V>(m: &'a FnvHashMap<K, V>, k: &K) -> (r: Option<&'a V>)
    ensures
        obeys_key_model::<K>() ==> match r {
            Some(v) => m@.contains_key(*k) && *v == m@[*k],
            None => !m@.contains_key(*k),
        },
{
    m.get(k)
}

/// Relies on `HashMap::remove` (with the FNV hasher): takes out the value stored under `k`.
#[verifier::external_body]
pub(crate) fn map_remove<K: Eq + Hash, V>(m: &mut FnvHashMap<K, V>, k: &K) -> (r: Option<V>)
    ensures
        obeys_key_model::<K>() ==> final(m)@ == old(m)@.remove(*k),
        obeys_key_model::<K>() ==> match r {
            Some(v) => old(m)@.contains_key(*k) && v == old(m)@[*k],
            None => !old(m)@.contains_key(*k),
        },
{
    m.remove(k)
}

/// Relies on `HashMap::insert` (with the FNV hasher): `v` is stored under `k`.
#[verifier::external_body]
pub(crate) fn map_insert<K: Eq + Hash, V>(m: &mut FnvHashMap<K, V>, k: K, v: V)
    ensures
        obeys_key_model::<K>() ==> final(m)@ == old(m)@.insert(k, v),
{
    m.insert(k, v);
}

/// Relies on `HashSet::insert` (with the FNV hasher): adds `k`, and tells whether it was new.
#[verifier::external_body]
pub(crate) fn set_insert<K: Eq + Hash>(s: &mut FnvHashSet<K>, k: K) -> (r: bool)
    ensures
        obeys_key_model::<K>() ==> final(s)@ == old(s)@.insert(k),
        obeys_key_model::<K>() ==> r == !old(s)@.contains(k),
{
    s.insert(k)
}

/// Relies on `HashSet::iter` (with the FNV hasher): every element, in the
/// set's own order.
#[verifier::external_body]
pub(crate) fn set_items(s: &FnvHashSet<usize>) -> (r: Vec<usize>)
    ensures
        forall|x: usize| #[trigger] r@.contains(x) <==> s@.contains(x),
{
    s.iter().copied().collect()
}

} // verus!
