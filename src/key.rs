//! Compound keys: an event kind type paired with a payload type.
use vstd::prelude::*;

verus! {

#[verifier::external_type_specification]
#[verifier::external_body]
pub struct ExTypeId(std::any::TypeId);

/// Relies on `std::any::TypeId::of`: the identifier of the type `T`.
#[verifier::external_body]
fn type_key<T: 'static>() -> (r: std::any::TypeId) {
    std::any::TypeId::of::<T>()
}

/// Relies on `TypeId`'s `==`: two identifiers compare equal exactly when they
/// are the same identifier.
#[verifier::external_body]
fn same_type(a: &std::any::TypeId, b: &std::any::TypeId) -> (r: bool)
    ensures
        r == (*a == *b),
{
    *a == *b
}

/// The routing key of a handler: the type of the event kind together with the
/// type of the payload that the handler receives.
#[derive(Clone, Copy, Debug)]
pub struct CompoundKey {
    pub kind: std::any::TypeId,
    pub payload: std::any::TypeId,
}

impl CompoundKey {
    /// The key of event kind `K` carrying payloads of type `X`.
    pub fn of<K: 'static, X: 'static>() -> (r: CompoundKey) {
        CompoundKey { kind: type_key::<K>(), payload: type_key::<X>() }
    }

    /// Whether two keys name the same (kind, payload type) pair.
    pub fn matches(&self, other: &CompoundKey) -> (r: bool)
        ensures
            r == (*self == *other),
    {
        same_type(&self.kind, &other.kind) && same_type(&self.payload, &other.payload)
    }
}

} // verus!
