//! System identities and the system-scoped access to an entity.
use vstd::prelude::*;
use crate::key::{IComponent, TypeKey};
use crate::entity::{Entity, unseen, consumed};

verus! {

/// Hands out system identifiers: 1 first, then each one greater than the
/// last, none ever twice.
pub struct SystemCounter {
    next: usize,
    issued: Ghost<Seq<usize>>,
}

impl SystemCounter {
    /// The identifiers issued so far increase strictly, lie in `1..next`,
    /// and `next` is at least 1.
    pub closed spec fn wf(&self) -> bool {
        &&& 1 <= self.next
        &&& forall|i: int, j: int| 0 <= i < j < self.issued@.len() ==> self.issued@[i] < self.issued@[j]
        &&& forall|i: int| 0 <= i < self.issued@.len() ==> 1 <= #[trigger] self.issued@[i] < self.next
    }

    /// The identifier that the next system will get.
    pub closed spec fn next_id(&self) -> usize {
        self.next
    }

    /// The identifiers issued so far, in the order they were issued.
    pub closed spec fn issued(&self) -> Seq<usize> {
        self.issued@
    }

    /// A counter that has issued nothing; its first identifier is 1.
    pub fn new() -> (r: SystemCounter)
        ensures
            r.wf(),
            r.next_id() == 1,
            r.issued() == Seq::<usize>::empty(),
    {
        SystemCounter { next: 1, issued: Ghost(Seq::empty()) }
    }

    /// Whether another identifier can be issued without overflow.
    pub fn can_issue(&self) -> (r: bool)
        ensures
            r == (self.next_id() < usize::MAX),
    {
        self.next < usize::MAX
    }
}

/// Identifiers issued by one counter are pairwise distinct and increase in
/// the order they were issued.
pub proof fn lemma_issued_increasing(c: &SystemCounter)
    requires
        c.wf(),
    ensures
        forall|i: int, j: int| 0 <= i < j < c.issued().len() ==> c.issued()[i] < c.issued()[j],
        forall|i: int, j: int|
            0 <= i < c.issued().len() && 0 <= j < c.issued().len() && i != j
                ==> c.issued()[i] != c.issued()[j],
        forall|i: int| 0 <= i < c.issued().len() ==> 1 <= #[trigger] c.issued()[i] < c.next_id(),
{
    assert forall|i: int, j: int|
        0 <= i < c.issued().len() && 0 <= j < c.issued().len() && i != j
            implies c.issued()[i] != c.issued()[j] by {
        if i < j {
            assert(c.issued()[i] < c.issued()[j]);
        } else {
            assert(c.issued()[j] < c.issued()[i]);
        }
    }
}

/// A system: an identity under which consumption of components is tracked.
pub struct System {
    id: usize,
}

impl View for System {
    type V = usize;

    closed spec fn view(&self) -> usize {
        self.id
    }
}

impl System {
    /// A new system, with the next identifier of `counter`.
    pub fn new(counter: &mut SystemCounter) -> (r: System)
        requires
            old(counter).wf(),
            old(counter).next_id() < usize::MAX,
        ensures
            final(counter).wf(),
            r@ == old(counter).next_id(),
            final(counter).next_id() == old(counter).next_id() + 1,
            final(counter).issued() == old(counter).issued().push(r@),
    {
        System { id: Self::get_id(counter) }
    }

    fn get_id(counter: &mut SystemCounter) -> (r: usize)
        requires
            old(counter).wf(),
            old(counter).next_id() < usize::MAX,
        ensures
            final(counter).wf(),
            r == old(counter).next_id(),
            final(counter).next_id() == old(counter).next_id() + 1,
            final(counter).issued() == old(counter).issued().push(r),
    {
        let id = counter.next;
        counter.issued = Ghost(counter.issued@.push(id));
        counter.next = id + 1;
        id
    }

    /// The system's identifier.
    pub fn id(&self) -> (r: usize)
        ensures
            r == self@,
    {
        self.id
    }

    /// Whether `entity` holds a component of type `T` that this system has
    /// not consumed yet.
    pub fn has_component<T: IComponent>(&self, entity: &Entity) -> (r: bool)
        requires
            entity.wf(),
        ensures
            exists|k: TypeKey| r == unseen(entity@, k, self@),
    {
        let r = entity.has_registered_component::<T>(&self.id);
        proof {
            let k = choose|k: TypeKey| r == unseen(entity@, k, self.id);
            assert(r == unseen(entity@, k, self@));
        }
        r
    }

    /// The component of type `T` of `entity`, which this system thereby
    /// consumes.
    pub fn get_component<'a, T: IComponent>(&self, entity: &'a mut Entity) -> (r: Option<&'a T>)
        requires
            old(entity).wf(),
        ensures
            final(entity).wf(),
            exists|k: TypeKey|
                final(entity)@ == consumed(old(entity)@, k, self@)
                && (r is Some ==> old(entity)@.contains_key(k)),
    {
        entity.get_registered_component::<T>(&self.id)
    }
}

} // verus!
