use std::sync::Arc;
use vstd::prelude::*;

verus! {

/// Full memory barrier.
///
/// Relies on `std::sync::atomic::fence` with `SeqCst` ordering, which has no
/// effect on any value that the library's contracts speak of.
#[verifier::external_body]
pub fn barrier() {
    std::sync::atomic::fence(std::sync::atomic::Ordering::SeqCst);
}

/// Another handle on the value behind `a`.
///
/// Relies on `Arc::clone`: the result points at the same allocation.
#[verifier::external_body]
pub(crate) fn share<T>(a: &Arc<T>) -> (r: Arc<T>)
    ensures
        *r == **a,
{
    Arc::clone(a)
}

/// Full memory barrier around read-side entry and exit.
pub fn smp_mb() {
    barrier();
}

} // verus!
