//! The shared allocation behind the share owners: an atomically counted handle
//! from `std::sync::Arc`, plus the address that identifies where a value came from.
use vstd::prelude::*;

use std::sync::Arc;

verus! {

/// Makes a second handle to the same allocation (`Arc::clone`).
/// Trusted: the new handle reads the same value as the one it was cloned from.
#[verifier::external_body]
pub(crate) fn clone_handle<T>(handle: &Arc<T>) -> (copy: Arc<T>)
    ensures
        *copy == **handle,
{
    Arc::clone(handle)
}

/// The address of the value behind a handle (`Arc::as_ptr`), used as the identity
/// of an allocation while some handle keeps it alive.
/// Trusted: nothing is claimed of the number itself, which the allocator chooses.
#[verifier::external_body]
pub(crate) fn handle_address<T>(handle: &Arc<T>) -> (addr: usize) {
    Arc::as_ptr(handle) as usize
}

/// Takes the value out of a handle when it is the only one left (`Arc::try_unwrap`).
/// Trusted: on success the value is the one the handle held; otherwise the very
/// same handle comes back. Whether other handles are still alive is not visible
/// to the proofs, so it is left unsaid when the call succeeds.
#[verifier::external_body]
pub(crate) fn release_handle<T>(handle: Arc<T>) -> (released: Result<T, Arc<T>>)
    ensures
        match released {
            Ok(value) => value == *handle,
            Err(back) => back == handle,
        },
{
    Arc::try_unwrap(handle)
}

} // verus!

verus! {

/// Whether `T` is a zero-sized type.
pub open spec fn is_zero_sized<T>() -> bool {
    vstd::layout::size_of::<T>() == 0
}

/// The origin every zero-sized value of type `T` shares: such values need no
/// memory, so they all live at the same well-aligned dangling address.
pub open spec fn zero_sized_origin<T>() -> nat {
    vstd::layout::align_of::<T>()
}

/// The origin recorded for an allocation of values of type `T` held behind `handle`:
/// its address, or the common dangling address when `T` is zero-sized.
pub(crate) fn allocation_origin<T, H>(handle: &Arc<H>) -> (origin: usize)
    ensures
        is_zero_sized::<T>() ==> origin == zero_sized_origin::<T>(),
{
    if core::mem::size_of::<T>() == 0 {
        core::mem::align_of::<T>()
    } else {
        handle_address(handle)
    }
}

} // verus!
