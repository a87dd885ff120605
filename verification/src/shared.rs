//! Shared values.
use std::sync::Arc;
use vstd::prelude::*;

verus! {

/// Wraps the clone of `std::sync::Arc`: another pointer to the same value.
#[verifier::external_body]
pub(crate) fn share<T>(a: &Arc<T>) -> (r: Arc<T>)
    ensures
        *r == **a,
{
    Arc::clone(a)
}

} // verus!
