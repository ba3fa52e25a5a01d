//! Random access to a sized resource, and a pool of sequential readers that
//! provides it.

pub mod read_at_wrapper;

use std::sync::Arc;
use vstd::prelude::*;

verus! {

/// A resource of known size that can be read starting at any offset.
///
/// Reading is asynchronous and is driven by the runtime; the synchronous
/// half of the interface, the size, is stated here.
pub trait ReadAt {
    /// The size of the resource, in bytes.
    spec fn spec_size(&self) -> u64;

    /// Returns the size of the resource.
    fn size(&self) -> (size: u64)
        ensures
            size == self.spec_size(),
    ;
}

/// A type that can hand out a random-access view of itself.
pub trait AsAsyncReadAt {
    type Out: ReadAt;

    fn as_async_read_at(self: &Arc<Self>) -> Self::Out;
}

} // verus!
