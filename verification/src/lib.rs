//! A verified sub-allocator for device memory.
//!
//! Real-time rendering code asks a graphics device for many small pieces of
//! memory. Performing one device-level allocation per request is far too
//! expensive, so this library carves small byte ranges out of a few large
//! device allocations ("chunks") and hands them to callers as [`Memory`]
//! handles. The verified contracts guarantee that the ranges of live handles
//! never overlap, and that every chunk's free-byte counter accounts exactly
//! for the bytes checked out to live handles.
//!
//! The library is pure bookkeeping over plain values: the actual device
//! objects (the device itself and each chunk's backing allocation) live with
//! the embedding application, which refers to them through [`DeviceHandle`]
//! tokens and chunk ids.

pub mod chunk;
pub mod default_chunk;
pub mod default_gpu_allocator;
pub mod errors;
pub mod gpu_allocator;
pub mod memory;
pub mod menu;
pub mod model;
pub mod primitive;

pub use crate::chunk::Chunk;
pub use crate::default_chunk::DefaultChunk;
pub use crate::default_gpu_allocator::DefaultGpuAllocator;
pub use crate::default_gpu_allocator::CHUNK_DEFAULT_SIZE;
pub use crate::errors::AllocationError;
pub use crate::errors::BindError;
pub use crate::errors::CreateEncoderErrorKind;
pub use crate::gpu_allocator::GpuAllocator;
pub use crate::memory::DeviceHandle;
pub use crate::memory::MemRange;
pub use crate::memory::Memory;
pub use crate::memory::MemoryTypeId;
