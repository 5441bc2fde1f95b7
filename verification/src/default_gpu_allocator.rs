//! The production pool: a growable collection of chunks keyed by a
//! monotonically increasing id.

use crate::chunk::Chunk;
use crate::errors::AllocationError;
use crate::gpu_allocator::GpuAllocator;
use crate::memory::DeviceHandle;
use crate::memory::Memory;
use crate::memory::MemoryTypeId;
use crate::model::can_allocate;
use crate::model::chunk_alloc_model;
use crate::model::chunk_alloc_range;
use crate::model::chunk_dealloc_model;
use crate::model::fresh_chunk_model;
use crate::model::lemma_pool_find_ensures;
use crate::model::pool_find;
use crate::model::MemoryModel;
use crate::model::PoolModel;
use vstd::prelude::*;

verus! {

/// The size in bytes of every chunk created for a request that fits in one:
/// 64 MiB. Larger requests get a dedicated chunk of exactly their size.
pub const CHUNK_DEFAULT_SIZE: u32 = 67108864;

/// The production [`GpuAllocator`]: it lazily creates chunks per memory
/// category, routes each request to the first chunk that can satisfy it,
/// and routes each deallocation to the chunk that issued the handle.
///
/// Chunk ids double as indexes: the chunk with id `i` is the `i`-th chunk
/// ever created, and chunks are never dropped.
pub struct DefaultGpuAllocator<C: Chunk> {
    device: Option<DeviceHandle>,
    chunks: Vec<C>,
}

impl<C: Chunk> DefaultGpuAllocator<C> {
    /// An empty, uninitialized pool.
    pub fn new() -> (r: Self)
        ensures
            r.inv(),
            r.model() == (PoolModel { initialized: false, chunks: Seq::empty() }),
    {
        let r = DefaultGpuAllocator { device: None, chunks: Vec::new() };
        proof {
            assert(r.model().chunks =~= Seq::<crate::model::ChunkModel>::empty());
        }
        r
    }

    /// The number of chunks this pool has created so far. Chunks are never
    /// dropped, so ids `0..chunk_count()` are exactly the registered ones.
    pub fn chunk_count(&self) -> (r: usize)
        ensures
            r == self.model().chunks.len(),
    {
        self.chunks.len()
    }

    /// Whether some registered chunk of the requested memory category could
    /// satisfy `size` bytes right now, without creating a new chunk. Lets an
    /// embedder perform the slow device allocation that will back a new
    /// chunk before it re-enters the pool.
    pub fn has_capacity(&self, memory_id: MemoryTypeId, size: u64) -> (r: bool)
        requires
            self.inv(),
            size <= u32::MAX as u64,
        ensures
            r == (pool_find(self.model().chunks, memory_id.0 as int, size as int) is Some),
    {
        let size32 = size as u32;
        let ghost chunks = self.model().chunks;
        proof {
            lemma_pool_find_ensures(chunks, memory_id.0 as int, size as int);
        }
        let n = self.chunks.len();
        let mut i: usize = 0;
        while i < n
            invariant
                self.inv(),
                chunks == self.model().chunks,
                n == self.chunks@.len(),
                0 <= i <= n,
                size <= u32::MAX as u64,
                size32 == size as u32,
                forall|j: int|
                    0 <= j < i ==> !((#[trigger] chunks[j]).memory_id == memory_id.0 as int
                        && can_allocate(chunks[j], size as int)),
                match pool_find(chunks, memory_id.0 as int, size as int) {
                    Some(k) => {
                        &&& 0 <= k < chunks.len()
                        &&& chunks[k].memory_id == memory_id.0 as int
                        &&& can_allocate(chunks[k], size as int)
                        &&& forall|j: int|
                            0 <= j < k ==> !((#[trigger] chunks[j]).memory_id == memory_id.0 as int
                                && can_allocate(chunks[j], size as int))
                    },
                    None => forall|j: int|
                        0 <= j < chunks.len() ==> !((#[trigger] chunks[j]).memory_id
                            == memory_id.0 as int && can_allocate(chunks[j], size as int)),
                },
            decreases n - i,
        {
            let c = &self.chunks[i];
            proof {
                assert(c.model() == chunks[i as int]);
            }
            if c.memory_id() == memory_id && c.can_satisfy(size32) {
                return true;
            }
            i += 1;
        }
        false
    }

    /// Creates a chunk of `chunk_size` bytes, immediately carves
    /// `memory_size` bytes out of it, and registers it under the next id.
    fn create_chunk_and_get_memory(
        &mut self,
        memory_id: MemoryTypeId,
        chunk_size: u32,
        memory_size: u32,
    ) -> (r: Result<Memory, AllocationError>)
        requires
            old(self).inv(),
            memory_size <= chunk_size,
        ensures
            final(self).inv(),
            final(self).model().initialized == old(self).model().initialized,
            !old(self).model().initialized ==> (r matches Err(e) && e is NotInitialized && final(self).model() == old(self).model()),
            old(self).model().initialized ==> match r {
                Ok(m) => {
                    &&& m@ == (MemoryModel {
                        range: (0int, memory_size as int),
                        chunk_id: old(self).model().chunks.len() as int,
                        is_freed: false,
                        is_allocated: false,
                    })
                    &&& final(self).model().chunks == old(self).model().chunks.push(
                        chunk_alloc_model(
                            fresh_chunk_model(
                                memory_id.0 as int,
                                chunk_size as int,
                                old(self).model().chunks.len() as int,
                            ),
                            memory_size as int,
                        ),
                    )
                },
                Err(e) => e is DeviceAllocationFailure && final(self).model() == old(self).model(),
            },
    {
        let device = match self.device {
            None => {
                return Err(AllocationError::NotInitialized);
            },
            Some(d) => d,
        };
        let id = self.chunks.len() as u64;
        match C::new(device, memory_id, chunk_size, id) {
            Err(e) => Err(e),
            Ok(mut chunk) => {
                let ghost fresh = fresh_chunk_model(memory_id.0 as int, chunk_size as int, id as int);
                proof {
                    assert(chunk.model() == fresh);
                    assert(fresh.regions[0] == (0int, chunk_size as int));
                    assert(crate::model::first_fit(fresh.regions, memory_size as int) == Some(
                        0int,
                    ));
                    assert(can_allocate(fresh, memory_size as int));
                }
                match chunk.allocate(memory_size) {
                    Err(e) => {
                        // A fresh chunk always satisfies a request that fits
                        // in it, so this branch cannot be reached.
                        proof {
                            assert(false);
                        }
                        Err(e)
                    },
                    Ok(m) => {
                        proof {
                            assert(chunk_alloc_range(fresh, memory_size as int) == (
                                0int,
                                memory_size as int,
                            ));
                        }
                        self.chunks.push(chunk);
                        proof {
                            assert(self.model().chunks =~= old(self).model().chunks.push(
                                chunk_alloc_model(fresh, memory_size as int),
                            ));
                        }
                        Ok(m)
                    },
                }
            },
        }
    }
}

impl<C: Chunk> GpuAllocator for DefaultGpuAllocator<C> {
    closed spec fn model(&self) -> PoolModel {
        PoolModel {
            initialized: self.device is Some,
            chunks: self.chunks@.map_values(|c: C| c.model()),
        }
    }

    closed spec fn inv(&self) -> bool {
        forall|i: int|
            0 <= i < self.chunks@.len() ==> (#[trigger] self.chunks@[i]).inv()
                && self.chunks@[i].model().id == i
    }

    proof fn chunks_well_formed(&self, i: int) {
        let c = self.chunks@[i];
        c.inv_implies_wf();
        assert(self.model().chunks[i] == c.model());
    }

    fn init(&mut self, device: DeviceHandle) {
        self.device = Some(device);
        proof {
            assert(self.model().chunks =~= old(self).model().chunks);
        }
    }

    fn allocate_memory(&mut self, memory_id: MemoryTypeId, size: u64) -> (r: Result<
        Memory,
        AllocationError,
    >)
        ensures
            old(self).model().initialized && size <= CHUNK_DEFAULT_SIZE as u64 ==> match pool_find(
                old(self).model().chunks,
                memory_id.0 as int,
                size as int,
            ) {
                Some(i) => {
                    &&& r matches Ok(m)
                    &&& m@ == (MemoryModel {
                        range: chunk_alloc_range(old(self).model().chunks[i], size as int),
                        chunk_id: i,
                        is_freed: false,
                        is_allocated: false,
                    })
                    &&& final(self).model().chunks == old(self).model().chunks.update(
                        i,
                        chunk_alloc_model(old(self).model().chunks[i], size as int),
                    )
                },
                None => match r {
                    Ok(m) => {
                        &&& m@ == (MemoryModel {
                            range: (0int, size as int),
                            chunk_id: old(self).model().chunks.len() as int,
                            is_freed: false,
                            is_allocated: false,
                        })
                        &&& final(self).model().chunks == old(self).model().chunks.push(
                            chunk_alloc_model(
                                fresh_chunk_model(
                                    memory_id.0 as int,
                                    CHUNK_DEFAULT_SIZE as int,
                                    old(self).model().chunks.len() as int,
                                ),
                                size as int,
                            ),
                        )
                    },
                    Err(e) => e is DeviceAllocationFailure && final(self).model() == old(self).model(),
                },
            },
            old(self).model().initialized && size > CHUNK_DEFAULT_SIZE as u64 ==> match r {
                Ok(m) => {
                    &&& m@ == (MemoryModel {
                        range: (0int, size as int),
                        chunk_id: old(self).model().chunks.len() as int,
                        is_freed: false,
                        is_allocated: false,
                    })
                    &&& final(self).model().chunks == old(self).model().chunks.push(
                        chunk_alloc_model(
                            fresh_chunk_model(
                                memory_id.0 as int,
                                size as int,
                                old(self).model().chunks.len() as int,
                            ),
                            size as int,
                        ),
                    )
                },
                Err(e) => e is DeviceAllocationFailure && final(self).model() == old(self).model(),
            },
    {
        if self.device.is_none() {
            return Err(AllocationError::NotInitialized);
        }
        let size32 = size as u32;
        if size <= CHUNK_DEFAULT_SIZE as u64 {
            let ghost pre_chunks = self.model().chunks;
            let n = self.chunks.len();
            let mut i: usize = 0;
            while i < n
                invariant
                    self.inv(),
                    self.model() == old(self).model(),
                    pre_chunks == old(self).model().chunks,
                    n == self.chunks@.len(),
                    0 <= i <= n,
                    size <= u32::MAX as u64,
                    size <= CHUNK_DEFAULT_SIZE as u64,
                    size32 == size as u32,
                    old(self).model().initialized,
                    forall|j: int|
                        0 <= j < i ==> !((#[trigger] pre_chunks[j]).memory_id == memory_id.0 as int
                            && can_allocate(pre_chunks[j], size as int)),
                decreases n - i,
            {
                let c = &mut self.chunks[i];
                let ghost c_model = c.model();
                proof {
                    assert(c_model == pre_chunks[i as int]);
                }
                if c.memory_id() == memory_id {
                    match c.allocate(size32) {
                        Ok(m) => {
                            proof {
                                assert(can_allocate(c_model, size as int));
                                lemma_pool_find_ensures(pre_chunks, memory_id.0 as int, size as int);
                                match pool_find(pre_chunks, memory_id.0 as int, size as int) {
                                    Some(k) => {
                                        assert(!(k < i as int));
                                        assert(!(k > i as int));
                                        assert(k == i as int);
                                    },
                                    None => {
                                        assert(false);
                                    },
                                }
                                assert(self.model().chunks =~= pre_chunks.update(
                                    i as int,
                                    chunk_alloc_model(c_model, size as int),
                                ));
                                assert(self.model().chunks[i as int].live.last() == m@.range);
                                assert(self.model().chunks[i as int].live.contains(m@.range));
                            }
                            return Ok(m);
                        },
                        Err(_) => {
                            proof {
                                assert(!can_allocate(c_model, size as int));
                                assert(self.model().chunks =~= old(self).model().chunks);
                                assert(self.model() =~= old(self).model());
                            }
                        },
                    }
                }
                i += 1;
            }
            proof {
                lemma_pool_find_ensures(pre_chunks, memory_id.0 as int, size as int);
                assert(pool_find(pre_chunks, memory_id.0 as int, size as int) is None);
            }
            let r = self.create_chunk_and_get_memory(memory_id, CHUNK_DEFAULT_SIZE, size32);
            proof {
                if let Ok(m) = &r {
                    let post = self.model().chunks;
                    assert(post[m@.chunk_id].live.last() == m@.range);
                    assert(post[m@.chunk_id].live.contains(m@.range));
                }
            }
            r
        } else {
            let r = self.create_chunk_and_get_memory(memory_id, size32, size32);
            proof {
                if let Ok(m) = &r {
                    let post = self.model().chunks;
                    assert(post[m@.chunk_id].live.last() == m@.range);
                    assert(post[m@.chunk_id].live.contains(m@.range));
                }
            }
            r
        }
    }

    fn free_memory(&mut self, memory: &mut Memory)
        ensures
            final(self).model().initialized == old(self).model().initialized,
            0 <= old(memory)@.chunk_id < old(self).model().chunks.len() ==> final(self).model().chunks == old(self).model().chunks.update(
                old(memory)@.chunk_id,
                chunk_dealloc_model(
                    old(self).model().chunks[old(memory)@.chunk_id],
                    old(memory)@.range,
                ),
            ),
            !(0 <= old(memory)@.chunk_id < old(self).model().chunks.len()) ==> final(self).model()
                == old(self).model(),
    {
        let cid = memory.chunk_id();
        if cid < self.chunks.len() as u64 {
            let c = &mut self.chunks[cid as usize];
            c.deallocate(memory);
            proof {
                assert(self.model().chunks =~= old(self).model().chunks.update(
                    cid as int,
                    chunk_dealloc_model(old(self).model().chunks[cid as int], old(memory)@.range),
                ));
            }
        } else {
            proof {
                assert(self.model().chunks =~= old(self).model().chunks);
            }
        }
        memory.set_freed();
    }
}

} // verus!
