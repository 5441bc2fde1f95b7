//! The allocator facade: the narrow interface resource-construction code
//! allocates device memory through.

use crate::errors::AllocationError;
use crate::memory::DeviceHandle;
use crate::memory::Memory;
use crate::memory::MemoryTypeId;
use crate::model::range_len;
use crate::model::MemoryModel;
use crate::model::PoolModel;
use vstd::prelude::*;

verus! {

/// A pool that hands out [`Memory`] handles carved from chunks of device
/// memory and takes them back.
pub trait GpuAllocator: Sized {
    /// The pool as a mathematical value.
    spec fn model(&self) -> PoolModel;

    /// The representation invariant that every operation preserves.
    spec fn inv(&self) -> bool;

    /// Every chunk of a valid pool is well-formed. Together with the
    /// `allocate_memory` contract this lets a caller conclude, for example,
    /// that a returned handle's range lies inside its chunk's size.
    proof fn chunks_well_formed(&self, i: int)
        requires
            self.inv(),
            0 <= i < self.model().chunks.len(),
        ensures
            crate::model::chunk_wf(self.model().chunks[i]),
    ;

    /// Stores the device reference. Must run exactly once, before any
    /// allocation.
    fn init(&mut self, device: DeviceHandle)
        requires
            old(self).inv(),
            !old(self).model().initialized,
        ensures
            final(self).inv(),
            final(self).model().initialized,
            final(self).model().chunks == old(self).model().chunks,
    ;

    /// Hands out `size` bytes of memory of the requested category, creating
    /// a new chunk when no registered chunk can satisfy the request. Before
    /// `init` it always fails. On success the returned handle is live in the
    /// chunk its id names.
    fn allocate_memory(&mut self, memory_id: MemoryTypeId, size: u64) -> (r: Result<
        Memory,
        AllocationError,
    >)
        requires
            old(self).inv(),
            size <= u32::MAX as u64,
        ensures
            final(self).inv(),
            final(self).model().initialized == old(self).model().initialized,
            !old(self).model().initialized ==> (r matches Err(e) && e is NotInitialized && final(self).model() == old(self).model()),
            r matches Ok(m) ==> {
                &&& !m@.is_freed
                &&& !m@.is_allocated
                &&& range_len(m@.range) == size as int
                &&& 0 <= m@.chunk_id < final(self).model().chunks.len()
                &&& final(self).model().chunks[m@.chunk_id].live.contains(m@.range)
            },
    ;

    /// Takes a live handle back: the chunk the handle's id names reabsorbs
    /// the handle's range, and the handle is marked freed. A handle whose id
    /// names no chunk is tolerated and only marked freed.
    fn free_memory(&mut self, memory: &mut Memory)
        requires
            old(self).inv(),
            !old(memory)@.is_freed,
            0 <= old(memory)@.chunk_id < old(self).model().chunks.len() ==> old(self).model().chunks[old(memory)@.chunk_id].live.contains(old(memory)@.range),
        ensures
            final(self).inv(),
            final(memory)@ == (MemoryModel { is_freed: true, ..old(memory)@ }),
    ;
}

} // verus!

