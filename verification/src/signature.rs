//! Runtime identity of a method signature.

use vstd::prelude::*;
use core::any::TypeId;

verus! {

/// `core::any::TypeId`, carried through as an opaque value.
#[verifier::external_type_specification]
#[verifier::external_body]
pub struct ExTypeId(TypeId);

/// `TypeId::of` gives the identifier of `T`. Nothing is stated about its
/// value: the verifier has no notion of type identity to state it over.
pub assume_specification<T: ?Sized + 'static>[ TypeId::of::<T> ]() -> (id: TypeId);

/// `TypeId`'s `==`: two identifiers compare equal exactly when they are the
/// same identifier.
#[verifier::external_body]
fn same_type_id(a: &TypeId, b: &TypeId) -> (same: bool)
    ensures
        same == (*a == *b),
{
    a == b
}

/// The runtime tag of one `(Args, Return)` pair.
#[derive(Clone, Copy, Debug)]
pub struct TypeTag {
    id: TypeId,
}

impl TypeTag {
    /// The tag of the signature that packs its arguments as `I` and returns
    /// `O`.
    pub fn of<I: 'static, O: 'static>() -> (tag: TypeTag) {
        TypeTag { id: TypeId::of::<(I, O)>() }
    }

    /// Whether two tags stand for the same signature.
    pub fn matches(&self, other: &TypeTag) -> (same: bool)
        ensures
            same == (*self == *other),
    {
        same_type_id(&self.id, &other.id)
    }
}

} // verus!
