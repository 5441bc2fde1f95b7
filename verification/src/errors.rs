//! Error types of the allocator.

use vstd::prelude::*;

verus! {

/// Why an allocation request could not be satisfied.
#[derive(Clone, Copy, Debug, PartialEq, Eq, Structural)]
pub enum AllocationError {
    /// `allocate_memory` was called on a pool whose `init` has not run yet.
    NotInitialized,
    /// No chunk holds a single free range large enough for the request. This
    /// also covers the fragmentation case where the free bytes would suffice
    /// in aggregate but no contiguous range does.
    NoRegionAvailable,
    /// The device-level allocation that backs a new chunk failed.
    DeviceAllocationFailure,
}

impl AllocationError {
    /// The human-readable description of the error.
    pub fn message(&self) -> (r: &'static str)
        ensures
            *self is NotInitialized ==> r@ == "This allocator has not been initialized"@,
            *self is NoRegionAvailable ==> r@ == "No available region found"@,
            *self is DeviceAllocationFailure ==> r@ == "Device memory allocation failed"@,
    {
        match self {
            AllocationError::NotInitialized => "This allocator has not been initialized",
            AllocationError::NoRegionAvailable => "No available region found",
            AllocationError::DeviceAllocationFailure => "Device memory allocation failed",
        }
    }
}

/// Why acquiring a command encoder for the next frame failed.
#[derive(Clone, Copy, Debug, PartialEq, Eq, Structural)]
pub enum CreateEncoderErrorKind {
    /// The swapchain no longer matches the surface and must be rebuilt.
    RecreateSwapchain,
    /// The frame was not ready in time; the caller may simply try again.
    Timeout,
    /// The device was lost.
    DeviceLost,
    /// The device ran out of memory.
    OutOfMemory,
}

impl CreateEncoderErrorKind {
    /// The human-readable description of the error.
    pub fn message(&self) -> (r: &'static str)
        ensures
            *self is RecreateSwapchain ==> r@ == "The swapchain needs to be recreated"@,
            *self is Timeout ==> r@ == "This error can safely be ignored"@,
            *self is DeviceLost ==> r@ == "Device has been lost"@,
            *self is OutOfMemory ==> r@ == "Device has been lost"@,
    {
        match self {
            CreateEncoderErrorKind::RecreateSwapchain => "The swapchain needs to be recreated",
            CreateEncoderErrorKind::Timeout => "This error can safely be ignored",
            CreateEncoderErrorKind::DeviceLost => "Device has been lost",
            CreateEncoderErrorKind::OutOfMemory => "Device has been lost",
        }
    }
}

/// Why a memory handle may not be bound to a buffer or image.
#[derive(Clone, Copy, Debug, PartialEq, Eq, Structural)]
pub enum BindError {
    /// The handle has already been released back to its pool.
    FreedMemory,
    /// The handle already backs a resource.
    AlreadyAllocated,
}

impl BindError {
    /// The human-readable description of the error.
    pub fn message(&self) -> (r: &'static str)
        ensures
            *self is FreedMemory ==> r@ == "Can't bind to already freed memory!"@,
            *self is AlreadyAllocated ==> r@ == "This memory is already allocated"@,
    {
        match self {
            BindError::FreedMemory => "Can't bind to already freed memory!",
            BindError::AlreadyAllocated => "This memory is already allocated",
        }
    }
}

} // verus!
