//! Per-week count maps, held in intmap's `IntMap`, keyed by subject identifier.

use intmap::IntMap;
use vstd::prelude::*;

verus! {

#[verifier::external_type_specification]
#[verifier::external_body]
#[verifier::reject_recursive_types(V)]
pub struct ExIntMap<V>(IntMap<V>);

/// The key-value pairs that a count map holds.
pub uninterp spec fn count_entries(m: IntMap<i32>) -> Map<u64, i32>;

/// A map with no entry.
pub open spec fn no_counts() -> Map<u64, i32> {
    Map::empty()
}

/// Relies on `IntMap::with_capacity`: a new map holds no entry.
#[verifier::external_body]
pub(crate) fn new_count_map(capacity: usize) -> (m: IntMap<i32>)
    requires
        capacity <= 0x1_0000_0000,
    ensures
        count_entries(m) == no_counts(),
{
    IntMap::with_capacity(capacity)
}

/// Relies on `IntMap::insert`: the key is bound to the value, replacing any
/// earlier value, and the other entries stay.
#[verifier::external_body]
pub(crate) fn insert_count(m: &mut IntMap<i32>, key: u64, value: i32)
    ensures
        count_entries(*final(m)) == count_entries(*old(m)).insert(key, value),
{
    m.insert(key, value);
}

/// Relies on `IntMap::get`: the value bound to the key, if any.
#[verifier::external_body]
pub(crate) fn count_for(m: &IntMap<i32>, key: u64) -> (r: Option<i32>)
    ensures
        r == (if count_entries(*m).contains_key(key) {
            Some(count_entries(*m)[key])
        } else {
            None
        }),
{
    m.get(key).copied()
}

} // verus!
