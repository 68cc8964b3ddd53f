use vstd::prelude::*;

verus! {

/// A fresh identifier: `uuid::Uuid::new_v4`, a random version-4 UUID, packed
/// into a 128-bit integer by `uuid::Uuid::as_u128`. Nothing is claimed of the
/// value: two calls may return anything, and the callers that need an
/// identifier to be unused test for that themselves.
#[verifier::external_body]
pub(crate) fn new() -> (id: u128)
{
    uuid::Uuid::new_v4().as_u128()
}

} // verus!
