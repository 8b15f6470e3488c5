//! The concurrent map of the `dashmap` crate, as the journal and the invocation
//! use it: a map from entry indexes to journal entries.

use vstd::prelude::*;
use dashmap::DashMap;
use crate::entry::Entry;

verus! {

#[verifier::external_type_specification]
#[verifier::external_body]
#[verifier::reject_recursive_types(K)]
#[verifier::reject_recursive_types(V)]
#[verifier::reject_recursive_types(S)]
pub struct ExDashMap<K, V, S>(DashMap<K, V, S>);

/// What a map of journal entries holds: each index with its entry.
pub uninterp spec fn entries_of(m: DashMap<u32, Entry>) -> Map<u32, Entry>;

/// `DashMap::new`: a map that holds nothing.
#[verifier::external_body]
pub(crate) fn map_new() -> (r: DashMap<u32, Entry>)
    ensures
        entries_of(r).dom() == Set::<u32>::empty(),
{
    DashMap::new()
}

/// `DashMap::insert`: the map afterwards holds `value` at `key` and is otherwise
/// unchanged; the entry that was at `key` before, if any, is returned.
#[verifier::external_body]
pub(crate) fn map_insert(m: &mut DashMap<u32, Entry>, key: u32, value: Entry) -> (r: Option<Entry>)
    ensures
        entries_of(*final(m)) == entries_of(*old(m)).insert(key, value),
        r == (if entries_of(*old(m)).contains_key(key) {
            Some(entries_of(*old(m))[key])
        } else {
            None::<Entry>
        }),
{
    m.insert(key, value)
}

/// `DashMap::remove`: the map afterwards no longer holds `key`; the entry that
/// was at `key`, if any, is returned (the key it is paired with is dropped).
#[verifier::external_body]
pub(crate) fn map_remove(m: &mut DashMap<u32, Entry>, key: u32) -> (r: Option<Entry>)
    ensures
        entries_of(*final(m)) == entries_of(*old(m)).remove(key),
        r == (if entries_of(*old(m)).contains_key(key) {
            Some(entries_of(*old(m))[key])
        } else {
            None::<Entry>
        }),
{
    m.remove(&key).map(|(_, v)| v)
}

/// `DashMap::contains_key`: whether the map holds `key`.
#[verifier::external_body]
pub(crate) fn map_contains_key(m: &DashMap<u32, Entry>, key: u32) -> (r: bool)
    ensures
        r == entries_of(*m).contains_key(key),
{
    m.contains_key(&key)
}

/// `DashMap::len`: the number of keys the map holds.
#[verifier::external_body]
pub(crate) fn map_len(m: &DashMap<u32, Entry>) -> (r: usize)
    requires
        entries_of(*m).dom().finite(),
    ensures
        r == entries_of(*m).dom().len(),
{
    m.len()
}

/// `DashMap::get`, with the entry found copied out of the read guard by its
/// `Clone` (derived, so the copy has the same contents).
#[verifier::external_body]
pub(crate) fn map_get_cloned(m: &DashMap<u32, Entry>, key: u32) -> (r: Option<Entry>)
    ensures
        r is Some == entries_of(*m).contains_key(key),
        r matches Some(e) ==> e@ == entries_of(*m)[key]@,
{
    m.get(&key).map(|guard| guard.value().clone())
}

} // verus!
