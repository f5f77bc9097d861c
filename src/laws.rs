//! Laws of the store, stated over the model that the operations' contracts
//! use: `stored` for `insert_key`, `consumed` for `consume_key`, `remove` for
//! `remove_key`, `unseen` for `has_key_for`, and the model's value for
//! `value_of`.
use vstd::prelude::*;
use crate::key::{TypeKey, Erased};
use crate::entity::{SlotModel, fresh, stored, consumed, unseen};

verus! {

/// A value stored under a key is found there afterwards.
pub proof fn lemma_round_trip(m: Map<TypeKey, SlotModel>, key: TypeKey, value: Erased)
    ensures
        stored(m, key, value).contains_key(key),
        stored(m, key, value)[key].value == value,
{
}

/// Once a system has read a value, storing a new one under the same key makes
/// it unseen to that system again.
pub proof fn lemma_replacement_resets(m: Map<TypeKey, SlotModel>, key: TypeKey, id: usize, value: Erased)
    ensures
        m.contains_key(key) ==> !unseen(consumed(m, key, id), key, id),
        unseen(stored(consumed(m, key, id), key, value), key, id),
{
}

/// A read by one system changes nothing of what another system has seen;
/// a stored value is unseen by every system until that system reads it.
pub proof fn lemma_independent_consumers(
    m: Map<TypeKey, SlotModel>,
    key: TypeKey,
    value: Erased,
    a: usize,
    b: usize,
)
    requires
        a != b,
    ensures
        unseen(consumed(m, key, a), key, b) == unseen(m, key, b),
        unseen(stored(m, key, value), key, a),
        unseen(consumed(stored(m, key, value), key, a), key, b),
{
}

/// Reading twice gives the same value as reading once, and the second read
/// changes nothing; the first read makes the value seen.
pub proof fn lemma_idempotent_get(m: Map<TypeKey, SlotModel>, key: TypeKey, id: usize)
    ensures
        consumed(consumed(m, key, id), key, id) == consumed(m, key, id),
        consumed(m, key, id).contains_key(key) == m.contains_key(key),
        m.contains_key(key) ==> consumed(m, key, id)[key].value == m[key].value,
        m.contains_key(key) ==> !unseen(consumed(m, key, id), key, id),
{
    if m.contains_key(key) {
        let c = consumed(m, key, id);
        assert(c[key].consumers.insert(id) =~= c[key].consumers);
        assert(consumed(c, key, id) =~= c);
    }
}

/// The store after system `id` reads the component under `key` `n` times.
pub open spec fn consumed_times(m: Map<TypeKey, SlotModel>, key: TypeKey, id: usize, n: nat) -> Map<TypeKey, SlotModel>
    decreases n,
{
    if n == 0 {
        m
    } else {
        consumed(consumed_times(m, key, id, (n - 1) as nat), key, id)
    }
}

/// Any number of reads by one system, one or more, leaves the store as one
/// read does: the value stays seen by that system until it is replaced, and
/// stays unseen by every other system that has not read it.
pub proof fn lemma_repeated_reads(m: Map<TypeKey, SlotModel>, key: TypeKey, id: usize, other: usize, n: nat)
    requires
        n >= 1,
        id != other,
    ensures
        consumed_times(m, key, id, n) == consumed(m, key, id),
        m.contains_key(key) ==> !unseen(consumed_times(m, key, id, n), key, id),
        unseen(consumed_times(m, key, id, n), key, other) == unseen(m, key, other),
    decreases n,
{
    lemma_idempotent_get(m, key, id);
    if n > 1 {
        lemma_repeated_reads(m, key, id, other, (n - 1) as nat);
        assert(consumed_times(m, key, id, n) == consumed(consumed(m, key, id), key, id));
    } else {
        assert(consumed_times(m, key, id, 0) == m);
    }
}

/// With nothing under a key, no system has anything unseen there and a read
/// changes nothing.
pub proof fn lemma_absence(m: Map<TypeKey, SlotModel>, key: TypeKey, id: usize)
    requires
        !m.contains_key(key),
    ensures
        !unseen(m, key, id),
        consumed(m, key, id) == m,
{
}

/// Removing a key leaves nothing under it, and storing under it again is a
/// fresh store for every system, whatever had been consumed before.
pub proof fn lemma_removal(m: Map<TypeKey, SlotModel>, key: TypeKey, id: usize, value: Erased)
    ensures
        !m.remove(key).contains_key(key),
        !unseen(m.remove(key), key, id),
        stored(m.remove(key), key, value) == stored(m, key, value),
        unseen(stored(m.remove(key), key, value), key, id),
{
    assert(m.remove(key).insert(key, fresh(value)) =~= m.insert(key, fresh(value)));
}

} // verus!
