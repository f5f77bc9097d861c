//! The outcome of a predicate over an entity, and running an action on it.
use vstd::prelude::*;
use crate::entity::Entity;

verus! {

/// Whether a predicate held when it was checked.
pub struct EntityCheck(bool);

impl EntityCheck {
    /// Whether the checked predicate held.
    pub closed spec fn is_satisfied(&self) -> bool {
        self.0
    }

    /// The outcome of a predicate that returned `satisfied`.
    pub fn new(satisfied: bool) -> (r: EntityCheck)
        ensures
            r.is_satisfied() == satisfied,
    {
        EntityCheck(satisfied)
    }

    /// Runs `callback` once when the predicate held, and does nothing
    /// otherwise.
    pub fn and_then<F: FnOnce()>(&self, callback: F) -> (r: &Self)
        requires
            self.is_satisfied() ==> callback.requires(()),
        ensures
            r == self,
            self.is_satisfied() ==> callback.ensures((), ()),
    {
        if self.0 {
            callback();
        }
        self
    }
}

impl Entity {
    /// Evaluates `predicate` on the entity once, now.
    pub fn check<F: FnOnce(&Entity) -> bool>(&self, predicate: F) -> (r: EntityCheck)
        requires
            predicate.requires((self,)),
        ensures
            predicate.ensures((self,), r.is_satisfied()),
    {
        EntityCheck::new(predicate(self))
    }
}

} // verus!
