use starstruck::Chunk;
use starstruck::DefaultChunk;
use starstruck::DefaultGpuAllocator;
use starstruck::DeviceHandle;
use starstruck::GpuAllocator;
use starstruck::MemRange;
use starstruck::Memory;
use starstruck::MemoryTypeId;
use starstruck::CHUNK_DEFAULT_SIZE;

fn fresh_chunk(size: u32) -> DefaultChunk {
    DefaultChunk::new(DeviceHandle { id: 0 }, MemoryTypeId(0), size, 0).unwrap()
}

#[test]
fn allocate_should_return_memory_on_success() {
    let mut chunk = fresh_chunk(1000);

    let mut memory = chunk.allocate(100).unwrap();

    // To avoid leaking the handle conceptually
    memory.set_freed();

    assert_eq!(100, memory.memory_range().len())
}

#[test]
fn allocate_should_fail_if_no_memory_is_available() {
    let mut chunk = fresh_chunk(1000);
    let error = chunk.allocate(10000).unwrap_err();

    assert_eq!("No available region found", error.message());
}

#[test]
fn allocate_should_allow_multiple_subsequent_allocations() {
    let mut chunk = fresh_chunk(1000);

    for _ in 0..10 {
        let mut memory = chunk.allocate(100).unwrap();
        memory.set_freed();
    }

    // this should error
    let error = chunk.allocate(100).unwrap_err();
    assert_eq!("No available region found", error.message());
}

#[test]
fn two_allocations_should_not_share_range() {
    let mut chunk = fresh_chunk(1000);
    let mut memory1 = chunk.allocate(100).unwrap();
    let mut memory2 = chunk.allocate(100).unwrap();

    memory1.set_freed();
    memory2.set_freed();

    assert_ne!(memory1.memory_range(), memory2.memory_range())
}

#[test]
fn two_allocations_are_adjacent_first_fit_ranges() {
    let mut chunk = fresh_chunk(1000);
    let mut memory1 = chunk.allocate(100).unwrap();
    let mut memory2 = chunk.allocate(100).unwrap();

    assert_eq!(MemRange { start: 0, end: 100 }, memory1.memory_range());
    assert_eq!(MemRange { start: 100, end: 200 }, memory2.memory_range());

    memory1.set_freed();
    memory2.set_freed();
}

#[test]
fn fresh_chunk_reports_its_bookkeeping() {
    let chunk = fresh_chunk(1000);
    assert_eq!(1000, chunk.size());
    assert_eq!(1000, chunk.free());
    assert_eq!(0, chunk.id());
    assert_eq!(DeviceHandle { id: 0 }, chunk.device());
    assert_eq!(MemoryTypeId(0), chunk.memory_id());
}

#[test]
fn allocate_decrements_free_by_the_requested_size() {
    let mut chunk = fresh_chunk(1000);
    let mut memory = chunk.allocate(100).unwrap();
    assert_eq!(900, chunk.free());
    memory.set_freed();
}

#[test]
fn deallocate_restores_free_to_its_prior_value() {
    let mut chunk = fresh_chunk(1000);
    let mut memory = chunk.allocate(100).unwrap();
    assert_eq!(900, chunk.free());

    chunk.deallocate(&mut memory);
    memory.set_freed();

    assert_eq!(1000, chunk.free());
}

#[test]
fn allocating_the_full_capacity_leaves_zero_free() {
    let mut chunk = fresh_chunk(1000);
    let mut memory = chunk.allocate(1000).unwrap();
    assert_eq!(0, chunk.free());

    let error = chunk.allocate(1).unwrap_err();
    assert_eq!("No available region found", error.message());

    memory.set_freed();
}

#[test]
fn deallocate_does_not_merge_the_free_list() {
    let mut chunk = fresh_chunk(1000);

    let mut handles = Vec::new();
    for _ in 0..10 {
        handles.push(chunk.allocate(100).unwrap());
    }
    for memory in handles.iter_mut() {
        chunk.deallocate(memory);
        memory.set_freed();
    }

    // All 1000 bytes are free again, but they are split over ten disjoint
    // 100-byte ranges, so a single 1000-byte region no longer exists.
    assert_eq!(1000, chunk.free());
    let error = chunk.allocate(1000).unwrap_err();
    assert_eq!("No available region found", error.message());

    // A request that fits one fragment still succeeds.
    let mut memory = chunk.allocate(100).unwrap();
    memory.set_freed();
}

#[test]
fn default_chunk_size_should_be_correct() {
    assert_eq!(67_108_864, CHUNK_DEFAULT_SIZE);
}

#[test]
fn allocator_should_throw_if_not_initialized() {
    let mut allocator = DefaultGpuAllocator::<DefaultChunk>::new();
    let error = allocator.allocate_memory(MemoryTypeId(1), 1000).unwrap_err();
    assert_eq!("This allocator has not been initialized", error.message());
}

#[test]
fn allocator_creates_a_chunk_lazily_and_reuses_it() {
    let mut allocator = DefaultGpuAllocator::<DefaultChunk>::new();
    allocator.init(DeviceHandle { id: 7 });

    let mut memory1 = allocator.allocate_memory(MemoryTypeId(0), 100).unwrap();
    let mut memory2 = allocator.allocate_memory(MemoryTypeId(0), 100).unwrap();

    assert_eq!(0, memory1.chunk_id());
    assert_eq!(0, memory2.chunk_id());
    assert_eq!(MemRange { start: 0, end: 100 }, memory1.memory_range());
    assert_eq!(MemRange { start: 100, end: 200 }, memory2.memory_range());

    allocator.free_memory(&mut memory1);
    allocator.free_memory(&mut memory2);
    assert!(memory1.is_freed());
    assert!(memory2.is_freed());
}

#[test]
fn allocator_separates_memory_types_into_chunks() {
    let mut allocator = DefaultGpuAllocator::<DefaultChunk>::new();
    allocator.init(DeviceHandle { id: 0 });

    let mut memory1 = allocator.allocate_memory(MemoryTypeId(0), 100).unwrap();
    let mut memory2 = allocator.allocate_memory(MemoryTypeId(1), 100).unwrap();

    assert_eq!(0, memory1.chunk_id());
    assert_eq!(1, memory2.chunk_id());

    allocator.free_memory(&mut memory1);
    allocator.free_memory(&mut memory2);
}

#[test]
fn allocator_gives_oversize_requests_a_dedicated_chunk() {
    let mut allocator = DefaultGpuAllocator::<DefaultChunk>::new();
    allocator.init(DeviceHandle { id: 0 });

    let oversize = CHUNK_DEFAULT_SIZE as u64 + 1;
    let mut big = allocator.allocate_memory(MemoryTypeId(0), oversize).unwrap();
    assert_eq!(0, big.chunk_id());
    assert_eq!(
        MemRange { start: 0, end: CHUNK_DEFAULT_SIZE + 1 },
        big.memory_range()
    );

    // The dedicated chunk is fully consumed, so an ordinary request of the
    // same memory type gets a new chunk.
    let mut small = allocator.allocate_memory(MemoryTypeId(0), 100).unwrap();
    assert_eq!(1, small.chunk_id());
    assert_eq!(MemRange { start: 0, end: 100 }, small.memory_range());

    allocator.free_memory(&mut big);
    allocator.free_memory(&mut small);
}

#[test]
fn allocator_reuses_freed_bytes_without_merging() {
    let mut allocator = DefaultGpuAllocator::<DefaultChunk>::new();
    allocator.init(DeviceHandle { id: 0 });

    let mut memory1 = allocator.allocate_memory(MemoryTypeId(0), 100).unwrap();
    allocator.free_memory(&mut memory1);

    // The freed range sits at the end of the free list; the shrunk first
    // range is scanned first, so the next allocation starts at byte 100.
    let mut memory2 = allocator.allocate_memory(MemoryTypeId(0), 100).unwrap();
    assert_eq!(MemRange { start: 100, end: 200 }, memory2.memory_range());
    allocator.free_memory(&mut memory2);
}

#[test]
fn free_memory_tolerates_an_unknown_chunk_id() {
    let mut allocator = DefaultGpuAllocator::<DefaultChunk>::new();
    allocator.init(DeviceHandle { id: 0 });

    // A handle whose chunk id names no chunk of this pool: the over-free is
    // tolerated and the handle is still marked freed.
    let mut stray = Memory::new(MemRange { start: 0, end: 10 }, 99);
    allocator.free_memory(&mut stray);
    assert!(stray.is_freed());
}

#[test]
fn memory_reports_its_identity() {
    let memory = Memory::new(MemRange { start: 10, end: 30 }, 3);
    assert_eq!(MemRange { start: 10, end: 30 }, memory.memory_range());
    assert_eq!(20, memory.memory_range().len());
    assert_eq!(3, memory.chunk_id());
    assert!(!memory.is_freed());
    assert!(!memory.is_allocated());
}

#[test]
fn binding_a_buffer_yields_the_range_start_once() {
    let mut memory = Memory::new(MemRange { start: 256, end: 512 }, 0);
    assert_eq!(Ok(256), memory.bind_buffer_memory());
    assert!(memory.is_allocated());

    // A handle backs at most one resource.
    let error = memory.bind_buffer_memory().unwrap_err();
    assert_eq!("This memory is already allocated", error.message());
}

#[test]
fn binding_freed_memory_is_refused() {
    let mut memory = Memory::new(MemRange { start: 256, end: 512 }, 0);
    memory.set_freed();
    let error = memory.bind_buffer_memory().unwrap_err();
    assert_eq!("Can't bind to already freed memory!", error.message());
    let error = memory.bind_image_memory(16).unwrap_err();
    assert_eq!("Can't bind to already freed memory!", error.message());
    assert!(!memory.is_allocated());
}

#[test]
fn binding_an_image_offsets_from_the_range_start() {
    let mut memory = Memory::new(MemRange { start: 256, end: 512 }, 0);
    assert_eq!(Ok(256 + 16), memory.bind_image_memory(16));
    assert!(memory.is_allocated());

    // An image bind claims the handle just like a buffer bind does.
    let error = memory.bind_buffer_memory().unwrap_err();
    assert_eq!("This memory is already allocated", error.message());
}

#[test]
fn capacity_queries_track_registered_chunks() {
    let mut allocator = DefaultGpuAllocator::<DefaultChunk>::new();
    allocator.init(DeviceHandle { id: 0 });

    assert_eq!(0, allocator.chunk_count());
    assert!(!allocator.has_capacity(MemoryTypeId(0), 100));

    let mut memory = allocator.allocate_memory(MemoryTypeId(0), 100).unwrap();
    assert_eq!(1, allocator.chunk_count());
    assert!(allocator.has_capacity(MemoryTypeId(0), 100));
    assert!(!allocator.has_capacity(MemoryTypeId(1), 100));

    allocator.free_memory(&mut memory);
}

#[test]
fn mapping_range_is_relative_to_the_range_start() {
    let memory = Memory::new(MemRange { start: 256, end: 512 }, 0);
    assert_eq!((266, 276), memory.mapping_range(10, 20));
}

#[test]
fn allocation_error_messages_are_stable() {
    assert_eq!(
        "Device memory allocation failed",
        starstruck::AllocationError::DeviceAllocationFailure.message()
    );
    assert_eq!(
        "This memory is already allocated",
        starstruck::BindError::AlreadyAllocated.message()
    );
}
