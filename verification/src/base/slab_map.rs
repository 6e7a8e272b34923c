//! Slabs of numbers, from the `slab` crate.

use slab::Slab;
use vstd::prelude::*;

verus! {

/// Storage that gives each value a key.
#[verifier::external_type_specification]
#[verifier::external_body]
#[verifier::reject_recursive_types(T)]
pub struct ExSlab<T>(Slab<T>);

/// What a slab holds under its keys.
pub uninterp spec fn slab_contents(slab: Slab<u64>) -> Map<usize, u64>;

/// `Slab::new` gives a slab that holds nothing.
#[verifier::external_body]
pub(crate) fn slab_new() -> (r: Slab<u64>)
    ensures
        forall|key: usize| !slab_contents(r).contains_key(key),
{
    Slab::new()
}

/// `Slab::insert` keeps a value under a key that was free, and gives the key.
#[verifier::external_body]
pub(crate) fn slab_insert(slab: &mut Slab<u64>, value: u64) -> (key: usize)
    ensures
        !slab_contents(*old(slab)).contains_key(key),
        slab_contents(*final(slab)) == slab_contents(*old(slab)).insert(key, value),
{
    slab.insert(value)
}

/// `Slab::get` gives what is kept under a key.
#[verifier::external_body]
pub(crate) fn slab_get(slab: &Slab<u64>, key: usize) -> (r: Option<u64>)
    ensures
        r == if slab_contents(*slab).contains_key(key) {
            Some(slab_contents(*slab)[key])
        } else {
            None
        },
{
    slab.get(key).copied()
}

/// `Slab::index_mut` gives the place of what is kept under a key, which is overwritten here.
#[verifier::external_body]
pub(crate) fn slab_set(slab: &mut Slab<u64>, key: usize, value: u64)
    requires
        slab_contents(*old(slab)).contains_key(key),
    ensures
        slab_contents(*final(slab)) == slab_contents(*old(slab)).insert(key, value),
{
    slab[key] = value;
}

/// Whether a list holds each key of a map with its value, in the order of keys.
pub open spec fn lists_in_order(items: Seq<(usize, u64)>, m: Map<usize, u64>) -> bool {
    &&& forall|i: int, j: int| 0 <= i < j < items.len() ==> (#[trigger] items[i]).0 < (#[trigger] items[j]).0
    &&& forall|i: int|
        0 <= i < items.len() ==> m.contains_key((#[trigger] items[i]).0) && m[items[i].0] == items[i].1
    &&& forall|key: usize| #[trigger]
        m.contains_key(key) ==> exists|i: int| 0 <= i < items.len() && (#[trigger] items[i]).0 == key
}

/// `Slab::into_iter` gives all that a slab holds, in the order of keys.
#[verifier::external_body]
pub(crate) fn slab_into_vec(slab: Slab<u64>) -> (r: Vec<(usize, u64)>)
    ensures
        lists_in_order(r@, slab_contents(slab)),
{
    slab.into_iter().collect()
}

/// A list of a map holds every key with its value, once, the smaller before the larger, and nothing else.
pub proof fn lists_hold_every_key(items: Seq<(usize, u64)>, m: Map<usize, u64>, key: usize, i: int, j: int)
    requires
        lists_in_order(items, m),
    ensures
        m.contains_key(key) <==> exists|k: int| 0 <= k < items.len() && (#[trigger] items[k]).0 == key,
        0 <= i < items.len() ==> m.contains_key(items[i].0) && m[items[i].0] == items[i].1,
        0 <= i < j < items.len() ==> items[i].0 < items[j].0,
{
}

} // verus!
