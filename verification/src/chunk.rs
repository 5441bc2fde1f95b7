//! The chunk capability: one device allocation subdivided into sub-ranges.
//!
//! The pool only touches chunks through this trait, so pool-level tests can
//! substitute a fake chunk implementation for the production one.

use crate::errors::AllocationError;
use crate::memory::DeviceHandle;
use crate::memory::Memory;
use crate::memory::MemoryTypeId;
use crate::model::can_allocate;
use crate::model::chunk_alloc_model;
use crate::model::chunk_alloc_range;
use crate::model::chunk_dealloc_model;
use crate::model::fresh_chunk_model;
use crate::model::ChunkModel;
use crate::model::MemoryModel;
use vstd::prelude::*;

verus! {

/// A single device memory allocation of a fixed size, subdivided by
/// bookkeeping into sub-ranges that are handed out as [`Memory`] handles.
pub trait Chunk: Sized {
    /// The chunk as a mathematical value.
    spec fn model(&self) -> ChunkModel;

    /// The representation invariant that every operation preserves.
    spec fn inv(&self) -> bool;

    /// The invariant keeps the model well-formed: free ranges and live
    /// ranges partition the chunk, and `free` counts the free-range bytes.
    proof fn inv_implies_wf(&self)
        requires
            self.inv(),
        ensures
            crate::model::chunk_wf(self.model()),
    ;

    /// Whether an allocation of `size` bytes would succeed right now.
    fn can_satisfy(&self, size: u32) -> (r: bool)
        requires
            self.inv(),
        ensures
            r == can_allocate(self.model(), size as int),
    ;

    /// Builds a chunk of `size` bytes backed by one device allocation
    /// against `memory_id`. Fails only when that device allocation fails.
    fn new(device: DeviceHandle, memory_id: MemoryTypeId, size: u32, id: u64) -> (r: Result<
        Self,
        AllocationError,
    >)
        ensures
            r matches Ok(c) ==> c.inv() && c.model() == fresh_chunk_model(
                memory_id.0 as int,
                size as int,
                id as int,
            ),
            r matches Err(e) ==> e is DeviceAllocationFailure,
    ;

    /// Carves `size` bytes out of the first free range that can hold them.
    /// Fails exactly when no single free range can, or when `size` exceeds
    /// the free-byte counter.
    fn allocate(&mut self, size: u32) -> (r: Result<Memory, AllocationError>)
        requires
            old(self).inv(),
        ensures
            final(self).inv(),
            can_allocate(old(self).model(), size as int) ==> {
                &&& r matches Ok(m)
                &&& m@ == (MemoryModel {
                    range: chunk_alloc_range(old(self).model(), size as int),
                    chunk_id: old(self).model().id,
                    is_freed: false,
                    is_allocated: false,
                })
                &&& final(self).model() == chunk_alloc_model(old(self).model(), size as int)
            },
            !can_allocate(old(self).model(), size as int) ==> (r matches Err(e) && e
                is NoRegionAvailable && final(self).model() == old(self).model()),
    ;

    /// Returns the bytes of a live handle to the chunk: its range is
    /// appended, unmerged, to the end of the free list. The handle itself is
    /// left untouched; the pool marks it freed afterwards.
    fn deallocate(&mut self, memory: &mut Memory)
        requires
            old(self).inv(),
            !old(memory)@.is_freed,
            old(memory)@.chunk_id == old(self).model().id,
            old(self).model().live.contains(old(memory)@.range),
        ensures
            final(self).inv(),
            final(self).model() == chunk_dealloc_model(old(self).model(), old(memory)@.range),
            *final(memory) == *old(memory),
    ;

    /// The memory category this chunk was allocated against.
    fn memory_id(&self) -> (r: MemoryTypeId)
        ensures
            r.0 as int == self.model().memory_id,
    ;
}

} // verus!
