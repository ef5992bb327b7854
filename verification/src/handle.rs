//! Shared ownership handles.
use std::sync::Arc;
use vstd::prelude::*;

verus! {

/// `Arc::clone`: a second handle to the same allocation, hence to the same
/// contents.
#[verifier::external_body]
pub(crate) fn share_arc<T>(handle: &Arc<T>) -> (r: Arc<T>)
    ensures
        *r == **handle,
{
    Arc::clone(handle)
}

} // verus!
