//! The per-entity component store with per-system consumption tracking.
use vstd::prelude::*;
use crate::key::{TypeKey, IComponent, Erased, type_key, same_key, erase, view_as};

verus! {

/// What the store holds for one component type: the value, and the
/// identifiers of the systems that have consumed that value.
pub struct SlotModel {
    pub value: Erased,
    pub consumers: Set<usize>,
}

/// A freshly stored value: no system has consumed it yet.
pub open spec fn fresh(value: Erased) -> SlotModel {
    SlotModel { value, consumers: Set::empty() }
}

/// The store after `value` is put under `key`, replacing what was there and
/// clearing its consumption state.
pub open spec fn stored(m: Map<TypeKey, SlotModel>, key: TypeKey, value: Erased) -> Map<TypeKey, SlotModel> {
    m.insert(key, fresh(value))
}

/// The store after system `id` reads the component under `key`.
pub open spec fn consumed(m: Map<TypeKey, SlotModel>, key: TypeKey, id: usize) -> Map<TypeKey, SlotModel> {
    if m.contains_key(key) {
        m.insert(key, SlotModel { value: m[key].value, consumers: m[key].consumers.insert(id) })
    } else {
        m
    }
}

/// Whether system `id` has a value under `key` that it has not consumed yet.
pub open spec fn unseen(m: Map<TypeKey, SlotModel>, key: TypeKey, id: usize) -> bool {
    m.contains_key(key) && !m[key].consumers.contains(id)
}

struct Slot {
    key: TypeKey,
    value: Erased,
    consumers: Vec<usize>,
}

/// An entity: at most one component per type, each with the set of systems
/// that have consumed its current value.
pub struct Entity {
    slots: Vec<Slot>,
}

spec fn slot_view(s: Slot) -> SlotModel {
    SlotModel { value: s.value, consumers: s.consumers@.to_set() }
}

impl Entity {
    /// No two slots share a key.
    pub closed spec fn wf(&self) -> bool {
        forall|i: int, j: int|
            0 <= i < self.slots@.len() && 0 <= j < self.slots@.len() && i != j
                ==> self.slots@[i].key != self.slots@[j].key
    }

    closed spec fn holds(&self, key: TypeKey) -> bool {
        exists|i: int| 0 <= i < self.slots@.len() && self.slots@[i].key == key
    }

    closed spec fn index_of(&self, key: TypeKey) -> int {
        choose|i: int| 0 <= i < self.slots@.len() && self.slots@[i].key == key
    }

    /// The components of the entity, by type key.
    pub closed spec fn view(&self) -> Map<TypeKey, SlotModel> {
        Map::new(|k: TypeKey| self.holds(k), |k: TypeKey| slot_view(self.slots@[self.index_of(k)]))
    }

    proof fn lemma_at(&self, i: int)
        requires
            self.wf(),
            0 <= i < self.slots@.len(),
        ensures
            self@.contains_key(self.slots@[i].key),
            self@[self.slots@[i].key] == slot_view(self.slots@[i]),
    {
        let k = self.slots@[i].key;
        assert(self.holds(k));
        let j = self.index_of(k);
        assert(self.slots@[j].key == k);
    }

    /// An entity with no components.
    pub fn new() -> (r: Entity)
        ensures
            r.wf(),
            r@ == Map::<TypeKey, SlotModel>::empty(),
    {
        let r = Entity { slots: Vec::new() };
        assert(r@ =~= Map::<TypeKey, SlotModel>::empty());
        r
    }

    fn find(&self, key: &TypeKey) -> (r: Option<usize>)
        requires
            self.wf(),
        ensures
            r matches Some(i) ==> i < self.slots@.len() && self.slots@[i as int].key == *key,
            r is Some <==> self@.contains_key(*key),
    {
        let mut i: usize = 0;
        while i < self.slots.len()
            invariant
                self.wf(),
                i <= self.slots@.len(),
                forall|j: int| 0 <= j < i ==> self.slots@[j].key != *key,
            decreases self.slots@.len() - i,
        {
            if same_key(&self.slots[i].key, key) {
                proof { self.lemma_at(i as int); }
                return Some(i);
            }
            i += 1;
        }
        None
    }

    /// Whether a component is stored under `key`.
    pub fn has_key(&self, key: &TypeKey) -> (r: bool)
        requires
            self.wf(),
        ensures
            r == self@.contains_key(*key),
    {
        self.find(key).is_some()
    }

    /// Whether system `id` has not yet consumed the value stored under `key`;
    /// false when nothing is stored there.
    pub fn has_key_for(&self, key: &TypeKey, id: usize) -> (r: bool)
        requires
            self.wf(),
        ensures
            r == unseen(self@, *key, id),
    {
        match self.find(key) {
            Some(i) => {
                proof { self.lemma_at(i as int); }
                let consumers = &self.slots[i].consumers;
                let mut j: usize = 0;
                while j < consumers.len()
                    invariant
                        self.wf(),
                        i < self.slots@.len(),
                        consumers == self.slots@[i as int].consumers,
                        self.slots@[i as int].key == *key,
                        j <= consumers@.len(),
                        forall|t: int| 0 <= t < j ==> consumers@[t] != id,
                    decreases consumers@.len() - j,
                {
                    if consumers[j] == id {
                        proof {
                            self.lemma_at(i as int);
                            assert(consumers@.contains(id));
                            assert(consumers@.to_set().contains(id));
                        }
                        return false;
                    }
                    j += 1;
                }
                assert(!consumers@.to_set().contains(id));
                true
            },
            None => false,
        }
    }

    /// The value stored under `key`, with no effect on consumption state.
    pub fn value_of(&self, key: &TypeKey) -> (r: Option<&Erased>)
        requires
            self.wf(),
        ensures
            r is Some <==> self@.contains_key(*key),
            r matches Some(v) ==> *v == self@[*key].value,
    {
        match self.find(key) {
            Some(i) => {
                proof { self.lemma_at(i as int); }
                Some(&self.slots[i].value)
            },
            None => None,
        }
    }

    /// Records that system `id` has consumed the value under `key`, if any.
    /// Returns whether a value is stored there.
    pub fn consume_key(&mut self, key: &TypeKey, id: usize) -> (r: bool)
        requires
            old(self).wf(),
        ensures
            final(self).wf(),
            r == old(self)@.contains_key(*key),
            final(self)@ == consumed(old(self)@, *key, id),
    {
        match self.find(key) {
            Some(i) => {
                proof { self.lemma_at(i as int); }
                if !self.has_key_for(key, id) {
                    proof {
                        let m = self@;
                        assert(m[*key].consumers.insert(id) =~= m[*key].consumers);
                        assert(consumed(m, *key, id) =~= m);
                    }
                    return true;
                }
                let ghost before = *self;
                self.slots[i].consumers.push(id);
                proof {
                    let s = self.slots@[i as int];
                    assert(s.consumers@ == before.slots@[i as int].consumers@.push(id));
                    before.slots@[i as int].consumers@.lemma_push_to_set_commute(id);
                    assert(self.slots@ == before.slots@.update(i as int, s));
                    lemma_update(before, *self, i as int);
                    assert(slot_view(s) == SlotModel {
                        value: before@[*key].value,
                        consumers: before@[*key].consumers.insert(id),
                    });
                }
                true
            },
            None => {
                false
            },
        }
    }

    /// Stores `value` under `key`, replacing any earlier value there; no
    /// system has consumed the new value.
    pub fn insert_key(&mut self, key: TypeKey, value: Erased)
        requires
            old(self).wf(),
        ensures
            final(self).wf(),
            final(self)@ == stored(old(self)@, key, value),
    {
        let ghost before = *self;
        let slot = Slot { key, value, consumers: Vec::new() };
        proof {
            assert(slot.consumers@.to_set() =~= Set::<usize>::empty());
            assert(slot_view(slot) == fresh(value));
        }
        match self.find(&key) {
            Some(i) => {
                self.slots[i] = slot;
                proof { lemma_update(before, *self, i as int); }
            },
            None => {
                self.slots.push(slot);
                proof {
                    assert(self.slots@.drop_last() =~= before.slots@);
                    lemma_push(before, *self);
                }
            },
        }
    }

    /// Removes the value under `key` and its consumption state, if any.
    pub fn remove_key(&mut self, key: &TypeKey)
        requires
            old(self).wf(),
        ensures
            final(self).wf(),
            final(self)@ == old(self)@.remove(*key),
    {
        let ghost before = *self;
        match self.find(key) {
            Some(i) => {
                self.slots.remove(i);
                proof { lemma_remove(before, *self, i as int); }
            },
            None => {
                assert(before@.remove(*key) =~= before@);
            },
        }
    }
}

impl Entity {
    /// Whether a component of type `T` is stored.
    pub fn has_component<T: IComponent>(&self) -> (r: bool)
        requires
            self.wf(),
        ensures
            exists|k: TypeKey| r == self@.contains_key(k),
    {
        self.has_key(&type_key::<T>())
    }

    /// Whether a component of type `T` is stored that system `id` has not
    /// consumed yet.
    pub fn has_registered_component<T: IComponent>(&self, id: &usize) -> (r: bool)
        requires
            self.wf(),
        ensures
            exists|k: TypeKey| r == unseen(self@, k, *id),
    {
        self.has_key_for(&type_key::<T>(), *id)
    }

    /// The component of type `T`, with no effect on consumption state.
    pub fn get_component<T: IComponent>(&self) -> (r: Option<&T>)
        requires
            self.wf(),
        ensures
            r is Some ==> exists|k: TypeKey| self@.contains_key(k),
    {
        match self.value_of(&type_key::<T>()) {
            Some(v) => view_as::<T>(v),
            None => None,
        }
    }

    /// The component of type `T`, recording that system `id` has consumed it.
    /// The value is returned whether or not `id` had consumed it before.
    pub fn get_registered_component<T: IComponent>(&mut self, id: &usize) -> (r: Option<&T>)
        requires
            old(self).wf(),
        ensures
            final(self).wf(),
            exists|k: TypeKey|
                final(self)@ == consumed(old(self)@, k, *id)
                && (r is Some ==> old(self)@.contains_key(k)),
    {
        let key = type_key::<T>();
        if !self.consume_key(&key, *id) {
            return None;
        }
        match self.value_of(&key) {
            Some(v) => view_as::<T>(v),
            None => None,
        }
    }

    /// Stores `component`, replacing any earlier component of its type and
    /// clearing that type's consumption state.
    pub fn push_component<T: IComponent>(&mut self, component: T) -> (r: &mut Self)
        requires
            old(self).wf(),
        ensures
            r.wf(),
            exists|k: TypeKey, v: Erased| r@ == stored(old(self)@, k, v),
            *final(self) == *final(r),
    {
        self.insert_key(type_key::<T>(), erase(component));
        self
    }

    /// Removes the component of type `T` and its consumption state, if any.
    pub fn pull_component<T: IComponent>(&mut self) -> (r: &mut Self)
        requires
            old(self).wf(),
        ensures
            r.wf(),
            exists|k: TypeKey| r@ == old(self)@.remove(k),
            *final(self) == *final(r),
    {
        self.remove_key(&type_key::<T>());
        self
    }
}

impl Entity {
    /// Stores `component`, as `push_component` does.
    pub fn add_component<T: IComponent>(&mut self, component: T) -> (r: &mut Self)
        requires
            old(self).wf(),
        ensures
            r.wf(),
            exists|k: TypeKey, v: Erased| r@ == stored(old(self)@, k, v),
            *final(self) == *final(r),
    {
        self.push_component(component)
    }

    /// Removes the component of type `T`, as `pull_component` does.
    pub fn drop_component<T: IComponent>(&mut self) -> (r: &mut Self)
        requires
            old(self).wf(),
        ensures
            r.wf(),
            exists|k: TypeKey| r@ == old(self)@.remove(k),
            *final(self) == *final(r),
    {
        self.pull_component::<T>()
    }
}

/// Replacing one slot by another with the same key changes the model at that
/// key only.
proof fn lemma_update(a: Entity, b: Entity, i: int)
    requires
        a.wf(),
        0 <= i < a.slots@.len(),
        b.slots@ == a.slots@.update(i, b.slots@[i]),
        b.slots@[i].key == a.slots@[i].key,
    ensures
        b.wf(),
        b@ == a@.insert(a.slots@[i].key, slot_view(b.slots@[i])),
{
    let key = a.slots@[i].key;
    let m = a@.insert(key, slot_view(b.slots@[i]));
    assert(b.wf());
    assert forall|k: TypeKey| #[trigger] b@.contains_key(k) <==> m.contains_key(k) by {
        if b.holds(k) {
            let j = b.index_of(k);
            a.lemma_at(j);
        }
        if m.contains_key(k) {
            if k == key {
                b.lemma_at(i);
            } else {
                let j = a.index_of(k);
                b.lemma_at(j);
            }
        }
    }
    assert forall|k: TypeKey| #[trigger] b@.contains_key(k) implies b@[k] == m[k] by {
        if b@.contains_key(k) {
            let j = b.index_of(k);
            b.lemma_at(j);
            a.lemma_at(j);
        }
    }
    assert(b@ =~= m);
}

/// Appending a slot whose key is new adds that key to the model.
proof fn lemma_push(a: Entity, b: Entity)
    requires
        a.wf(),
        b.slots@.len() == a.slots@.len() + 1,
        b.slots@.drop_last() == a.slots@,
        !a@.contains_key(b.slots@.last().key),
    ensures
        b.wf(),
        b@ == a@.insert(b.slots@.last().key, slot_view(b.slots@.last())),
{
    let n = a.slots@.len();
    let key = b.slots@[n as int].key;
    let m = a@.insert(key, slot_view(b.slots@[n as int]));
    assert forall|j: int| 0 <= j < n implies b.slots@[j] == a.slots@[j] by {
        assert(b.slots@.drop_last()[j] == b.slots@[j]);
    }
    assert forall|j: int| 0 <= j < n implies a.slots@[j].key != key by {
        a.lemma_at(j);
    }
    assert(b.wf());
    assert forall|k: TypeKey| #[trigger] b@.contains_key(k) <==> m.contains_key(k) by {
        if b.holds(k) {
            let j = b.index_of(k);
            if j < n {
                a.lemma_at(j);
            }
        }
        if m.contains_key(k) {
            if k == key {
                b.lemma_at(n as int);
            } else {
                let j = a.index_of(k);
                b.lemma_at(j);
            }
        }
    }
    assert forall|k: TypeKey| #[trigger] b@.contains_key(k) implies b@[k] == m[k] by {
        if b@.contains_key(k) {
            let j = b.index_of(k);
            b.lemma_at(j);
            if j < n {
                a.lemma_at(j);
            }
        }
    }
    assert(b@ =~= m);
}

/// Removing the slot at `i` removes its key from the model.
proof fn lemma_remove(a: Entity, b: Entity, i: int)
    requires
        a.wf(),
        0 <= i < a.slots@.len(),
        b.slots@ == a.slots@.remove(i),
    ensures
        b.wf(),
        b@ == a@.remove(a.slots@[i].key),
{
    let key = a.slots@[i].key;
    let m = a@.remove(key);
    assert forall|j: int| 0 <= j < b.slots@.len() implies
        b.slots@[j] == a.slots@[if j < i { j } else { j + 1 }] by {}
    assert(b.wf());
    assert forall|k: TypeKey| #[trigger] b@.contains_key(k) <==> m.contains_key(k) by {
        if b.holds(k) {
            let j = b.index_of(k);
            let aj = if j < i { j } else { j + 1 };
            a.lemma_at(aj);
        }
        if m.contains_key(k) {
            let j = a.index_of(k);
            a.lemma_at(j);
            assert(j != i);
            let bj = if j < i { j } else { j - 1 };
            b.lemma_at(bj);
        }
    }
    assert forall|k: TypeKey| #[trigger] b@.contains_key(k) implies b@[k] == m[k] by {
        if b@.contains_key(k) {
            let j = b.index_of(k);
            b.lemma_at(j);
            let aj = if j < i { j } else { j + 1 };
            a.lemma_at(aj);
        }
    }
    assert(b@ =~= m);
}

} // verus!
