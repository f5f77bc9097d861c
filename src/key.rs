//! Type keys and type-erased component values.
use vstd::prelude::*;

verus! {

#[verifier::external_type_specification]
#[verifier::external_body]
pub struct ExTypeId(std::any::TypeId);

/// The key under which a component type is stored: the type's `TypeId`.
pub type TypeKey = std::any::TypeId;

/// Relies on `TypeId::of`: it returns the identifier of the type `T`.
/// Nothing is claimed of the value, since it cannot be named per type.
pub assume_specification<T: ?Sized + 'static>[ std::any::TypeId::of::<T> ]() -> (r: std::any::TypeId);

/// Any `'static` type can be stored as a component.
pub trait IComponent: 'static {}

impl<T: 'static> IComponent for T {}

/// The key of component type `T`.
pub fn type_key<T: IComponent>() -> (r: TypeKey) {
    std::any::TypeId::of::<T>()
}

/// Relies on `TypeId`'s `PartialEq`: two identifiers compare equal exactly
/// when they are the same value.
#[verifier::external_body]
pub(crate) fn same_key(a: &TypeKey, b: &TypeKey) -> (r: bool)
    ensures
        r == (*a == *b),
{
    *a == *b
}

/// A component value with its type erased: an opaque box that remembers the
/// value's type. It is made only by `erase` and read only through `view_as`.
#[verifier::external_body]
pub struct Erased {
    inner: Box<dyn std::any::Any>,
}

/// Relies on `Box::new` and the unsizing coercion to `Box<dyn Any>`: the value
/// is moved into a box that remembers its type.
#[verifier::external_body]
pub(crate) fn erase<T: IComponent>(value: T) -> (r: Erased) {
    Erased { inner: Box::new(value) }
}

/// Relies on `<dyn Any>::downcast_ref`: a reference to the boxed value when it
/// has type `T`, `None` otherwise.
#[verifier::external_body]
pub(crate) fn view_as<T: IComponent>(e: &Erased) -> (r: Option<&T>) {
    e.inner.downcast_ref::<T>()
}

} // verus!
