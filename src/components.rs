//! A component store addressed through systems: untracked access, or access
//! tracked under a given system.
use vstd::prelude::*;
use crate::key::{IComponent, TypeKey, Erased, type_key, erase, view_as};
use crate::entity::{Entity, SlotModel, stored, consumed, unseen};
use crate::system::System;

verus! {

/// The components of one entity.
pub struct Components {
    entity: Entity,
}

impl View for Components {
    type V = Map<TypeKey, SlotModel>;

    closed spec fn view(&self) -> Map<TypeKey, SlotModel> {
        self.entity@
    }
}

impl Components {
    pub closed spec fn wf(&self) -> bool {
        self.entity.wf()
    }

    /// A store with no components.
    pub fn new() -> (r: Components)
        ensures
            r.wf(),
            r@ == Map::<TypeKey, SlotModel>::empty(),
    {
        Components { entity: Entity::new() }
    }

    /// Whether a component of type `T` is stored.
    pub fn has_unregistered_component<T: IComponent>(&self) -> (r: bool)
        requires
            self.wf(),
        ensures
            exists|k: TypeKey| r == self@.contains_key(k),
    {
        let r = self.entity.has_component::<T>();
        proof {
            let k = choose|k: TypeKey| r == self.entity@.contains_key(k);
            assert(r == self@.contains_key(k));
        }
        r
    }

    /// Whether a component of type `T` is stored that `system` has not
    /// consumed yet.
    pub fn has_component<T: IComponent>(&self, system: &System) -> (r: bool)
        requires
            self.wf(),
        ensures
            exists|k: TypeKey| r == unseen(self@, k, system@),
    {
        let r = system.has_component::<T>(&self.entity);
        proof {
            let k = choose|k: TypeKey| r == unseen(self.entity@, k, system@);
            assert(r == unseen(self@, k, system@));
        }
        r
    }

    /// The component of type `T`, with no effect on consumption state.
    pub fn get_unregistered_component<T: IComponent>(&mut self) -> (r: Option<&T>)
        requires
            old(self).wf(),
        ensures
            *final(self) == *old(self),
            r is Some ==> exists|k: TypeKey| old(self)@.contains_key(k),
    {
        let r = self.entity.get_component::<T>();
        proof {
            if r is Some {
                let k = choose|k: TypeKey| self.entity@.contains_key(k);
                assert(old(self)@.contains_key(k));
            }
        }
        r
    }

    /// The component of type `T`, which `system` thereby consumes.
    pub fn get_component<T: IComponent>(&mut self, system: &System) -> (r: Option<&T>)
        requires
            old(self).wf(),
        ensures
            final(self).wf(),
            exists|k: TypeKey|
                final(self)@ == consumed(old(self)@, k, system@)
                && (r is Some ==> old(self)@.contains_key(k)),
    {
        let key = type_key::<T>();
        let present = self.entity.consume_key(&key, system.id());
        proof {
            assert(self@ == consumed(old(self)@, key, system@));
        }
        if !present {
            return None;
        }
        match self.entity.value_of(&key) {
            Some(v) => view_as::<T>(v),
            None => None,
        }
    }

    /// Stores `component`, replacing any earlier component of its type and
    /// clearing that type's consumption state.
    pub fn add_component<T: IComponent>(&mut self, component: T) -> (r: &mut Self)
        requires
            old(self).wf(),
        ensures
            r.wf(),
            exists|k: TypeKey, v: Erased| r@ == stored(old(self)@, k, v),
            *final(self) == *final(r),
    {
        let key = type_key::<T>();
        let value = erase(component);
        let ghost v = value;
        self.entity.insert_key(key, value);
        proof {
            assert(self@ == stored(old(self)@, key, v));
        }
        self
    }

    /// Removes the component of type `T` and its consumption state, if any.
    pub fn remove_component<T: IComponent>(&mut self) -> (r: &mut Self)
        requires
            old(self).wf(),
        ensures
            r.wf(),
            exists|k: TypeKey| r@ == old(self)@.remove(k),
            *final(self) == *final(r),
    {
        let key = type_key::<T>();
        self.entity.remove_key(&key);
        proof {
            assert(self@ == old(self)@.remove(key));
        }
        self
    }

    /// Evaluates `predicate` on the store once, now.
    pub fn check<F: FnOnce(&Components) -> bool>(&self, predicate: F) -> (r: ComponentCheck)
        requires
            predicate.requires((self,)),
        ensures
            predicate.ensures((self,), r is Valid),
    {
        if predicate(self) {
            ComponentCheck::Valid
        } else {
            ComponentCheck::Invalid
        }
    }
}

/// Whether a predicate held when it was checked.
pub enum ComponentCheck {
    Valid,
    Invalid,
}

impl ComponentCheck {
    /// Runs `run` once when the predicate held, and does nothing otherwise.
    pub fn then_run_system<F: FnOnce()>(&self, run: F)
        requires
            self is Valid ==> run.requires(()),
        ensures
            self is Valid ==> run.ensures((), ()),
    {
        match self {
            ComponentCheck::Valid => run(),
            ComponentCheck::Invalid => (),
        }
    }
}

} // verus!
