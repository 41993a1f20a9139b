//! Values shared behind an [`Arc`], told apart by where they are stored.

use std::sync::Arc;
use vstd::prelude::*;

verus! {

/// `Arc::ptr_eq`: whether `a` and `b` point to the same allocation. Two that
/// do hold the same value; two that do not may still hold equal values, and
/// which of them share an allocation is not stated here.
#[verifier::external_body]
pub(crate) fn same_allocation<T>(a: &Arc<T>, b: &Arc<T>) -> (r: bool)
    ensures
        r ==> *a == *b,
{
    Arc::ptr_eq(a, b)
}

} // verus!
