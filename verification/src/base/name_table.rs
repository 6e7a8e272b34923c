//! Tables from texts to the numbers of what they name.

use dashmap::DashMap;
use vstd::prelude::*;

verus! {

/// The numbers that a table holds, by name.
pub uninterp spec fn numbers_in(table: DashMap<String, u64>) -> Map<Seq<char>, u64>;

/// `DashMap::new` gives a table that holds nothing.
#[verifier::external_body]
pub(crate) fn table_new() -> (r: DashMap<String, u64>)
    ensures
        forall|name: Seq<char>| !numbers_in(r).contains_key(name),
{
    DashMap::new()
}

/// `DashMap::get` gives what a table holds under a name.
#[verifier::external_body]
pub(crate) fn table_get(table: &DashMap<String, u64>, name: &str) -> (r: Option<u64>)
    ensures
        r == if numbers_in(*table).contains_key(name@) {
            Some(numbers_in(*table)[name@])
        } else {
            None
        },
{
    table.get(name).map(|id| *id)
}

/// `DashMap::insert` puts a value under a name, in place of what was there.
#[verifier::external_body]
pub(crate) fn table_insert(table: &mut DashMap<String, u64>, name: String, id: u64)
    ensures
        numbers_in(*final(table)) == numbers_in(*old(table)).insert(name@, id),
{
    table.insert(name, id);
}

/// `DashMap::iter` gives all that a table holds, in no particular order.
#[verifier::external_body]
pub(crate) fn table_values(table: &DashMap<String, u64>) -> (r: Vec<u64>)
    ensures
        forall|id: u64| #[trigger] r@.contains(id) <==> numbers_in(*table).contains_value(id),
{
    table.iter().map(|entry| *entry.value()).collect()
}

} // verus!
