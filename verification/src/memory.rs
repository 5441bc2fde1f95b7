//! The memory handle and the small value types it is built from.

use crate::errors::BindError;
use crate::model::MemoryModel;
use vstd::prelude::*;

verus! {

/// The device-reported classification of a memory category (for example
/// device-local versus host-visible). The allocator never interprets it; it
/// only groups chunks by it.
#[derive(Clone, Copy, Debug, PartialEq, Eq, Structural)]
pub struct MemoryTypeId(pub usize);

/// A token standing for the graphics device the pool allocates from. The
/// embedding application keeps the actual device object and maps tokens to
/// it; the allocator only passes the token along.
#[derive(Clone, Copy, Debug, PartialEq, Eq, Structural)]
pub struct DeviceHandle {
    pub id: u64,
}

/// A byte range `[start, end)` inside one chunk's backing allocation.
#[derive(Clone, Copy, Debug, PartialEq, Eq, Structural)]
pub struct MemRange {
    pub start: u32,
    pub end: u32,
}

impl MemRange {
    /// The range as a pair of mathematical integers.
    pub open spec fn view(&self) -> (int, int) {
        (self.start as int, self.end as int)
    }

    /// The number of bytes the range covers.
    pub fn len(&self) -> (r: u32)
        requires
            self.start <= self.end,
        ensures
            r == crate::model::range_len(self@),
    {
        self.end - self.start
    }
}

/// An owned handle to one byte range inside one chunk. Handles are carved
/// out by a chunk's `allocate` and are the only way callers refer to device
/// memory. A handle must be returned to the pool exactly once; `is_freed`
/// records that this has happened.
#[derive(Debug)]
pub struct Memory {
    range: MemRange,
    chunk_id: u64,
    is_freed: bool,
    is_allocated: bool,
}

impl View for Memory {
    type V = MemoryModel;

    closed spec fn view(&self) -> MemoryModel {
        MemoryModel {
            range: self.range@,
            chunk_id: self.chunk_id as int,
            is_freed: self.is_freed,
            is_allocated: self.is_allocated,
        }
    }
}

impl Memory {
    /// A fresh handle for `range`, carved from the chunk with id `chunk_id`:
    /// not yet freed, not yet bound to a resource.
    pub fn new(range: MemRange, chunk_id: u64) -> (r: Memory)
        ensures
            r@ == (MemoryModel {
                range: range@,
                chunk_id: chunk_id as int,
                is_freed: false,
                is_allocated: false,
            }),
    {
        Memory { range, chunk_id, is_freed: false, is_allocated: false }
    }

    /// The byte range this handle owns within its chunk's allocation.
    pub fn memory_range(&self) -> (r: MemRange)
        ensures
            r@ == self@.range,
    {
        self.range
    }

    /// The id of the chunk the range was carved from; the pool uses it to
    /// route a deallocation to the right chunk.
    pub fn chunk_id(&self) -> (r: u64)
        ensures
            r as int == self@.chunk_id,
    {
        self.chunk_id
    }

    /// Whether this handle has been returned to its pool.
    pub fn is_freed(&self) -> (r: bool)
        ensures
            r == self@.is_freed,
    {
        self.is_freed
    }

    /// Whether this handle already backs a resource.
    pub fn is_allocated(&self) -> (r: bool)
        ensures
            r == self@.is_allocated,
    {
        self.is_allocated
    }

    /// Marks the handle as returned. Called by the pool's deallocation path;
    /// after it, the handle must not be used to bind resources.
    pub fn set_freed(&mut self)
        ensures
            final(self)@ == (MemoryModel { is_freed: true, ..old(self)@ }),
    {
        self.is_freed = true;
    }

    /// Claims this handle as the backing store of a buffer and returns the
    /// device-level offset at which the caller performs the actual device
    /// bind call. A handle backs at most one resource: a successful call
    /// marks it bound, and a later bind attempt fails.
    pub fn bind_buffer_memory(&mut self) -> (r: Result<u64, BindError>)
        ensures
            !old(self)@.is_freed && !old(self)@.is_allocated ==> (r == Ok::<u64, BindError>(
                old(self)@.range.0 as u64,
            ) && final(self)@ == (MemoryModel { is_allocated: true, ..old(self)@ })),
            old(self)@.is_freed ==> (r == Err::<u64, BindError>(BindError::FreedMemory) && final(self)@ == old(self)@),
            !old(self)@.is_freed && old(self)@.is_allocated ==> (r == Err::<u64, BindError>(
                BindError::AlreadyAllocated,
            ) && final(self)@ == old(self)@),
    {
        if !self.is_freed && !self.is_allocated {
            self.is_allocated = true;
            Ok(self.range.start as u64)
        } else if self.is_freed {
            Err(BindError::FreedMemory)
        } else {
            Err(BindError::AlreadyAllocated)
        }
    }

    /// Claims this handle as the backing store of an image, `offset` bytes
    /// into the handle's range, and returns the device-level offset for the
    /// caller's actual device bind call. As with buffers, a successful call
    /// marks the handle bound and a later bind attempt fails.
    pub fn bind_image_memory(&mut self, offset: u64) -> (r: Result<u64, BindError>)
        requires
            old(self)@.range.0 + offset <= u64::MAX,
        ensures
            !old(self)@.is_freed && !old(self)@.is_allocated ==> (r == Ok::<u64, BindError>(
                (old(self)@.range.0 + offset) as u64,
            ) && final(self)@ == (MemoryModel { is_allocated: true, ..old(self)@ })),
            old(self)@.is_freed ==> (r == Err::<u64, BindError>(BindError::FreedMemory) && final(self)@ == old(self)@),
            !old(self)@.is_freed && old(self)@.is_allocated ==> (r == Err::<u64, BindError>(
                BindError::AlreadyAllocated,
            ) && final(self)@ == old(self)@),
    {
        if !self.is_freed && !self.is_allocated {
            self.is_allocated = true;
            Ok(self.range.start as u64 + offset)
        } else if self.is_freed {
            Err(BindError::FreedMemory)
        } else {
            Err(BindError::AlreadyAllocated)
        }
    }

    /// The device-level byte range to map for a CPU write that covers
    /// `[start, end)` relative to the start of the handle's range. The
    /// caller performs the actual mapping call on this range.
    pub fn mapping_range(&self, start: u64, end: u64) -> (r: (u64, u64))
        requires
            self@.range.0 + start <= u64::MAX,
            self@.range.0 + end <= u64::MAX,
        ensures
            r.0 == self@.range.0 + start,
            r.1 == self@.range.0 + end,
    {
        (self.range.start as u64 + start, self.range.start as u64 + end)
    }
}

} // verus!
