//! One system's view of one entity: read-only and untracked, or exclusive
//! and tracked.
use vstd::prelude::*;
use crate::key::{IComponent, TypeKey};
use crate::entity::{Entity, unseen, consumed};
use crate::system::System;
use crate::check::EntityCheck;

verus! {

/// A system's access to an entity. A `Reader` inspects the entity without
/// affecting what any system has consumed; a `Writer` reads through the
/// system's consumption tracking.
pub enum EntitySystem<'a, 'b> {
    Reader(&'a Entity, &'b System),
    Writer(&'a mut Entity, &'b System),
}

impl<'a, 'b> EntitySystem<'a, 'b> {
    /// The entity seen through this view.
    pub open spec fn entity(&self) -> Entity {
        match self {
            EntitySystem::Reader(e, _) => **e,
            EntitySystem::Writer(e, _) => **e,
        }
    }

    /// The identifier of the system that looks through this view.
    pub open spec fn system_id(&self) -> usize {
        match self {
            EntitySystem::Reader(_, s) => s@,
            EntitySystem::Writer(_, s) => s@,
        }
    }

    /// Whether reads through this view are tracked.
    pub open spec fn is_writer(&self) -> bool {
        self is Writer
    }

    /// A read-only, untracked view of `entity` for `system`.
    pub fn new_reader(entity: &'a Entity, system: &'b System) -> (r: Self)
        ensures
            !r.is_writer(),
            r.entity() == *entity,
            r.system_id() == system@,
    {
        EntitySystem::Reader(entity, system)
    }

    /// An exclusive, tracked view of `entity` for `system`.
    pub fn new_writer(entity: &'a mut Entity, system: &'b System) -> (r: Self)
        ensures
            r.is_writer(),
            r.entity() == *old(entity),
            r.system_id() == system@,
    {
        EntitySystem::Writer(entity, system)
    }

    /// For a reader, whether a component of type `T` is stored; for a
    /// writer, whether one is stored that the system has not consumed yet.
    pub fn has_component<T: IComponent>(&self) -> (r: bool)
        requires
            self.entity().wf(),
        ensures
            exists|k: TypeKey|
                if self.is_writer() {
                    r == unseen(self.entity()@, k, self.system_id())
                } else {
                    r == self.entity()@.contains_key(k)
                },
    {
        match self {
            EntitySystem::Reader(entity, _) => {
                let r = entity.has_component::<T>();
                proof {
                    let k = choose|k: TypeKey| r == entity@.contains_key(k);
                    assert(r == self.entity()@.contains_key(k));
                }
                r
            },
            EntitySystem::Writer(entity, system) => {
                let r = system.has_component::<T>(entity);
                proof {
                    let k = choose|k: TypeKey| r == unseen(entity@, k, system@);
                    assert(r == unseen(self.entity()@, k, self.system_id()));
                }
                r
            },
        }
    }

    /// The component of type `T`. A writer records that the system has
    /// consumed it; a reader changes nothing.
    pub fn get_component<T: IComponent>(&mut self) -> (r: Option<&T>)
        requires
            old(self).entity().wf(),
        ensures
            final(self).entity().wf(),
            final(self).is_writer() == old(self).is_writer(),
            final(self).system_id() == old(self).system_id(),
            old(self).is_writer() ==> exists|k: TypeKey|
                final(self).entity()@ == consumed(old(self).entity()@, k, old(self).system_id())
                && (r is Some ==> old(self).entity()@.contains_key(k)),
            !old(self).is_writer() ==> final(self).entity() == old(self).entity()
                && (r is Some ==> exists|k: TypeKey| old(self).entity()@.contains_key(k)),
    {
        if let EntitySystem::Reader(entity, _) = &*self {
            let e: &'a Entity = *entity;
            return e.get_component::<T>();
        }
        match self {
            EntitySystem::Writer(entity, system) => system.get_component::<T>(entity),
            EntitySystem::Reader(..) => None,
        }
    }

    /// Evaluates `predicate` on this view once, now.
    pub fn check<F: FnOnce(&EntitySystem) -> bool>(&self, predicate: F) -> (r: EntityCheck)
        requires
            predicate.requires((self,)),
        ensures
            predicate.ensures((self,), r.is_satisfied()),
    {
        EntityCheck::new(predicate(self))
    }
}

} // verus!
