//! The concurrent maps that the worker-query client keeps, reached through exclusive access.
use dashmap::DashMap;
use vstd::prelude::*;

use crate::indexer::recovery::source_slot::SourceSlot;
use crate::table::lookup;

verus! {

#[verifier::external_type_specification]
#[verifier::external_body]
#[verifier::reject_recursive_types(K)]
#[verifier::reject_recursive_types(V)]
#[verifier::reject_recursive_types(S)]
pub struct ExDashMap<K, V, S>(DashMap<K, V, S>);

/// The publisher bindings that a map holds: publisher id to worker id, rank and generation.
pub uninterp spec fn binding_entries(table: DashMap<u64, (u64, u32, u64)>) -> Map<
    u64,
    (u64, u32, u64),
>;

/// The slots that a map holds, by worker id and rank.
pub uninterp spec fn slot_entries(table: DashMap<(u64, u32), SourceSlot>) -> Map<
    (u64, u32),
    SourceSlot,
>;

pub open spec fn holds_nothing<K, V>(entries: Map<K, V>) -> bool {
    entries == Map::<K, V>::empty()
}

/// `DashMap::new`: the map is empty.
#[verifier::external_body]
pub(crate) fn new_bindings() -> (made: DashMap<u64, (u64, u32, u64)>)
    ensures
        holds_nothing(binding_entries(made)),
{
    DashMap::new()
}

/// `DashMap::get`: the value under the key, if there is one.
#[verifier::external_body]
pub(crate) fn get_binding(table: &DashMap<u64, (u64, u32, u64)>, publisher_id: u64) -> (found:
    Option<(u64, u32, u64)>)
    ensures
        found == lookup(binding_entries(*table), publisher_id),
{
    table.get(&publisher_id).map(|entry| *entry)
}

/// `DashMap::insert`: the key now has this value, and the value it had comes back.
#[verifier::external_body]
pub(crate) fn insert_binding(
    table: &mut DashMap<u64, (u64, u32, u64)>,
    publisher_id: u64,
    binding: (u64, u32, u64),
) -> (replaced: Option<(u64, u32, u64)>)
    ensures
        binding_entries(*final(table)) == binding_entries(*old(table)).insert(
            publisher_id,
            binding,
        ),
        replaced == lookup(binding_entries(*old(table)), publisher_id),
{
    table.insert(publisher_id, binding)
}

/// Whether an entry is exactly this binding.
pub fn is_same_binding(entry: &(u64, u32, u64), binding: &(u64, u32, u64)) -> (same: bool)
    ensures
        same == (*entry == *binding),
{
    entry.0 == binding.0 && entry.1 == binding.1 && entry.2 == binding.2
}

/// `DashMap::remove_if`: the entry goes if there is one and the test holds of it; what went
/// comes back.
#[verifier::external_body]
pub(crate) fn remove_binding_of(
    table: &mut DashMap<u64, (u64, u32, u64)>,
    publisher_id: u64,
    binding: (u64, u32, u64),
) -> (removed: Option<(u64, (u64, u32, u64))>)
    ensures
        ({
            let before = binding_entries(*old(table));
            if lookup(before, publisher_id) == Some(binding) {
                removed == Some((publisher_id, binding)) && binding_entries(*final(table))
                    == before.remove(publisher_id)
            } else {
                removed is None && binding_entries(*final(table)) == before
            }
        }),
{
    table.remove_if(&publisher_id, |_, entry| is_same_binding(entry, &binding))
}

/// `DashMap::new`: the map is empty.
#[verifier::external_body]
pub(crate) fn new_slots() -> (made: DashMap<(u64, u32), SourceSlot>)
    ensures
        holds_nothing(slot_entries(made)),
{
    DashMap::new()
}

/// `DashMap::insert`: the key now has this value, and the value it had comes back.
#[verifier::external_body]
pub(crate) fn insert_slot(
    table: &mut DashMap<(u64, u32), SourceSlot>,
    key: (u64, u32),
    slot: SourceSlot,
) -> (replaced: Option<SourceSlot>)
    ensures
        slot_entries(*final(table)) == slot_entries(*old(table)).insert(key, slot),
        replaced == lookup(slot_entries(*old(table)), key),
{
    table.insert(key, slot)
}

/// `DashMap::remove`: the key is gone; the entry it had comes back.
#[verifier::external_body]
pub(crate) fn remove_slot(table: &mut DashMap<(u64, u32), SourceSlot>, key: (u64, u32)) -> (removed:
    Option<((u64, u32), SourceSlot)>)
    ensures
        slot_entries(*final(table)) == slot_entries(*old(table)).remove(key),
        match removed {
            Some(entry) => entry.0 == key && lookup(slot_entries(*old(table)), key) == Some(
                entry.1,
            ),
            None => lookup(slot_entries(*old(table)), key) is None,
        },
{
    table.remove(&key)
}

/// `DashMap::iter`, keys only: every key once, in no particular order.
#[verifier::external_body]
pub(crate) fn slot_keys(table: &DashMap<(u64, u32), SourceSlot>) -> (keys: Vec<(u64, u32)>)
    ensures
        keys@.no_duplicates(),
        keys@.to_set() == slot_entries(*table).dom(),
{
    table.iter().map(|entry| *entry.key()).collect()
}

} // verus!
