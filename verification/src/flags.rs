//! Per-item on/off flags (collapsed, editing) keyed by item id.
use vstd::prelude::*;
use std::collections::HashMap;

verus! {

broadcast use vstd::std_specs::hash::group_hash_axioms;

/// The flag of `id`: off unless set.
pub open spec fn flag_of(m: Map<u64, bool>, id: u64) -> bool {
    m.contains_key(id) && m[id]
}

/// The flag of `id` (off unless set).
pub fn flag(m: &HashMap<u64, bool>, id: u64) -> (r: bool)
    ensures
        r == flag_of(m@, id),
{
    match m.get(&id) {
        Some(v) => *v,
        None => false,
    }
}

/// Sets the flag of `id`.
pub fn set_flag(m: &mut HashMap<u64, bool>, id: u64, on: bool)
    ensures
        final(m)@ == old(m)@.insert(id, on),
{
    m.insert(id, on);
}

/// Turns the flag of `id` over (an unset flag counts as off) and returns
/// its new value.
pub fn toggle_flag(m: &mut HashMap<u64, bool>, id: u64) -> (r: bool)
    ensures
        r == !flag_of(old(m)@, id),
        final(m)@ == old(m)@.insert(id, r),
{
    let v = !flag(m, id);
    m.insert(id, v);
    v
}

/// Forgets the flag of `id`.
pub fn clear_flag(m: &mut HashMap<u64, bool>, id: u64)
    ensures
        final(m)@ == old(m)@.remove(id),
{
    m.remove(&id);
}


/// Sets the flag of `id` only when it is already recorded.
pub fn set_flag_if_present(m: &mut HashMap<u64, bool>, id: u64, on: bool)
    ensures
        final(m)@ == (if old(m)@.contains_key(id) { old(m)@.insert(id, on) } else { old(m)@ }),
{
    if m.contains_key(&id) {
        m.insert(id, on);
    }
}

} // verus!
