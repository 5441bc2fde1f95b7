//! The production chunk: a first-fit free-list allocator over one device
//! allocation.

use crate::chunk::Chunk;
use crate::errors::AllocationError;
use crate::memory::DeviceHandle;
use crate::memory::MemRange;
use crate::memory::Memory;
use crate::memory::MemoryTypeId;
use crate::model::all_ordered;
use crate::model::can_allocate;
use crate::model::chunk_alloc_model;
use crate::model::chunk_alloc_range;
use crate::model::chunk_dealloc_model;
use crate::model::chunk_wf;
use crate::model::first_fit;
use crate::model::fresh_chunk_model;
use crate::model::lemma_first_fit_ensures;
use crate::model::lemma_remove_first_is_remove;
use crate::model::lemma_sum_lens_nonneg;
use crate::model::lemma_sum_lens_push;
use crate::model::lemma_sum_lens_remove;
use crate::model::lemma_sum_lens_update;
use crate::model::range_len;
use crate::model::remove_first;
use crate::model::sum_lens;
use crate::model::ChunkModel;
use crate::model::RangeModel;
use vstd::prelude::*;

verus! {

/// The free ranges of a chunk, as mathematical values, in list order.
pub open spec fn regions_model(s: Seq<MemRange>) -> Seq<RangeModel> {
    s.map_values(|r: MemRange| r@)
}

/// A first-fit free-list allocator over a single device allocation of
/// `size` bytes. Free ranges are scanned in list order; a deallocated range
/// is appended to the end of the list and never merged with its neighbours,
/// so the list fragments over time by design.
pub struct DefaultChunk {
    size: u32,
    free: u32,
    memory_id: MemoryTypeId,
    regions: Vec<MemRange>,
    device: DeviceHandle,
    id: u64,
    live: Ghost<Seq<RangeModel>>,
}

impl View for DefaultChunk {
    type V = ChunkModel;

    closed spec fn view(&self) -> ChunkModel {
        ChunkModel {
            size: self.size as int,
            free: self.free as int,
            memory_id: self.memory_id.0 as int,
            id: self.id as int,
            regions: regions_model(self.regions@),
            live: self.live@,
        }
    }
}

impl DefaultChunk {
    /// The device token this chunk's constructor stored.
    pub closed spec fn device_handle(&self) -> DeviceHandle {
        self.device
    }

    /// The total size in bytes of the chunk's backing allocation.
    pub fn size(&self) -> (r: u32)
        ensures
            r as int == self@.size,
    {
        self.size
    }

    /// The number of bytes not currently checked out to live handles.
    pub fn free(&self) -> (r: u32)
        ensures
            r as int == self@.free,
    {
        self.free
    }

    /// The id the owning pool assigned to this chunk.
    pub fn id(&self) -> (r: u64)
        ensures
            r as int == self@.id,
    {
        self.id
    }

    /// The token of the device this chunk was allocated from.
    pub fn device(&self) -> (r: DeviceHandle)
        ensures
            r == self.device_handle(),
    {
        self.device
    }

    /// The index of the first free range that holds at least `size` bytes.
    fn find_first_fit(regions: &Vec<MemRange>, size: u32) -> (r: Option<usize>)
        requires
            all_ordered(regions_model(regions@)),
        ensures
            match r {
                Some(i) => Some(i as int) == first_fit(regions_model(regions@), size as int),
                None => first_fit(regions_model(regions@), size as int) is None,
            },
    {
        let ghost regs = regions_model(regions@);
        proof {
            lemma_first_fit_ensures(regs, size as int);
        }
        let mut i: usize = 0;
        while i < regions.len()
            invariant
                0 <= i <= regions@.len(),
                regs == regions_model(regions@),
                all_ordered(regs),
                forall|j: int| 0 <= j < i ==> range_len(#[trigger] regs[j]) < size as int,
                match first_fit(regs, size as int) {
                    Some(k) => {
                        &&& 0 <= k < regs.len()
                        &&& range_len(regs[k]) >= size as int
                        &&& forall|j: int| 0 <= j < k ==> range_len(#[trigger] regs[j]) < size as int
                    },
                    None => forall|j: int|
                        0 <= j < regs.len() ==> range_len(#[trigger] regs[j]) < size as int,
                },
            decreases regions@.len() - i,
        {
            assert(regs[i as int] == regions@[i as int]@);
            if regions[i].end - regions[i].start >= size {
                proof {
                    if let Some(k) = first_fit(regs, size as int) {
                        assert(k == i as int);
                    }
                }
                return Some(i);
            }
            i += 1;
        }
        None
    }
}

impl Chunk for DefaultChunk {
    open spec fn model(&self) -> ChunkModel {
        self@
    }

    open spec fn inv(&self) -> bool {
        chunk_wf(self@)
    }

    proof fn inv_implies_wf(&self) {
    }

    fn can_satisfy(&self, size: u32) -> (r: bool) {
        size <= self.free && Self::find_first_fit(&self.regions, size).is_some()
    }

    fn new(device: DeviceHandle, memory_id: MemoryTypeId, size: u32, id: u64) -> (r: Result<
        Self,
        AllocationError,
    >)
        ensures
            r matches Ok(c) && c@ == fresh_chunk_model(memory_id.0 as int, size as int, id as int)
                && c.device_handle() == device,
    {
        let regions = vec![MemRange { start: 0, end: size }];
        let c = DefaultChunk {
            size,
            free: size,
            memory_id,
            regions,
            device,
            id,
            live: Ghost(Seq::empty()),
        };
        proof {
            reveal_with_fuel(sum_lens, 2);
            assert(c@.regions =~= seq![(0int, size as int)]);
            assert(c@ =~= fresh_chunk_model(memory_id.0 as int, size as int, id as int));
            assert(sum_lens(c@.regions) == size as int);
            assert(chunk_wf(c@));
        }
        Ok(c)
    }

    fn allocate(&mut self, size: u32) -> (r: Result<Memory, AllocationError>)
        ensures
            final(self).device_handle() == old(self).device_handle(),
    {
        let ghost pre = self@;
        if size > self.free {
            return Err(AllocationError::NoRegionAvailable);
        }
        match Self::find_first_fit(&self.regions, size) {
            None => Err(AllocationError::NoRegionAvailable),
            Some(i) => {
                proof {
                    lemma_first_fit_ensures(pre.regions, size as int);
                }
                let start = self.regions[i].start;
                let end = self.regions[i].end;
                self.regions[i] = MemRange { start: start + size, end };
                self.free = self.free - size;
                let ghost carved: RangeModel = (start as int, start as int + size as int);
                self.live = Ghost(self.live@.push(carved));
                let range = MemRange { start, end: start + size };
                proof {
                    lemma_allocate_preserves_wf(pre, size as int);
                    assert(self@.regions =~= pre.regions.update(
                        i as int,
                        (start as int + size as int, end as int),
                    ));
                    assert(self@ =~= chunk_alloc_model(pre, size as int));
                }
                Ok(Memory::new(range, self.id))
            },
        }
    }

    fn deallocate(&mut self, memory: &mut Memory)
        ensures
            final(self).device_handle() == old(self).device_handle(),
    {
        let ghost pre = self@;
        let range = memory.memory_range();
        proof {
            assert(range@ == old(memory)@.range);
            lemma_deallocate_preserves_wf(pre, range@);
            lemma_remove_first_is_remove(pre.live, range@);
            let k = choose|k: int|
                0 <= k < pre.live.len() && pre.live[k] == range@ && remove_first(pre.live, range@)
                    == pre.live.remove(k);
            lemma_sum_lens_remove(pre.live, k);
            lemma_sum_lens_nonneg(pre.live.remove(k));
            assert(self.free + range_len(range@) <= u32::MAX);
        }
        self.free = self.free + range.len();
        self.regions.push(range);
        self.live = Ghost(remove_first(self.live@, range@));
        proof {
            assert(self@.regions =~= pre.regions.push(range@));
            assert(self@ =~= chunk_dealloc_model(pre, range@));
        }
    }

    fn memory_id(&self) -> (r: MemoryTypeId) {
        self.memory_id
    }
}

/// At every point between operations, a chunk's `free` counter equals its
/// size minus the total bytes of the live handles carved from it.
pub proof fn lemma_free_accounts_for_live_bytes(c: ChunkModel)
    requires
        chunk_wf(c),
    ensures
        c.free == c.size - sum_lens(c.live),
{
}

/// Two distinct live handles of one chunk never overlap.
pub proof fn lemma_live_ranges_disjoint(c: ChunkModel, i: int, j: int)
    requires
        chunk_wf(c),
        0 <= i < c.live.len(),
        0 <= j < c.live.len(),
        i != j,
    ensures
        crate::model::ranges_disjoint(c.live[i], c.live[j]),
{
}

/// Allocating `n` bytes and immediately handing them back restores the
/// `free` counter exactly, but not the shape of the free list: the list ends
/// up one entry longer than before, because the returned range is appended
/// instead of being merged back. The round trip is free-neutral by design,
/// not idempotent.
pub proof fn lemma_allocate_deallocate_round_trip(c: ChunkModel, n: int)
    requires
        chunk_wf(c),
        0 <= n,
        can_allocate(c, n),
    ensures
        ({
            let mid = chunk_alloc_model(c, n);
            let back = chunk_dealloc_model(mid, chunk_alloc_range(c, n));
            &&& back.free == c.free
            &&& back.size == c.size
            &&& back.regions.len() == c.regions.len() + 1
            &&& chunk_wf(back)
        }),
{
    let carved = chunk_alloc_range(c, n);
    let mid = chunk_alloc_model(c, n);
    lemma_first_fit_ensures(c.regions, n);
    lemma_allocate_preserves_wf(c, n);
    assert(mid.live.last() == carved);
    assert(mid.live.contains(carved));
    lemma_deallocate_preserves_wf(mid, carved);
}

/// Allocating exactly the whole remaining capacity of a chunk succeeds
/// whenever one free range still holds all of it (as in a fresh chunk), and
/// leaves `free` at zero; after that, no request for even a single byte can
/// be satisfied. A chunk whose free bytes are split over several ranges is
/// excluded: there the request fails by design, fragmentation being a
/// legitimate failure cause.
pub proof fn lemma_full_capacity_boundary(c: ChunkModel, i: int)
    requires
        chunk_wf(c),
        0 <= i < c.regions.len(),
        range_len(c.regions[i]) == c.free,
    ensures
        can_allocate(c, c.free),
        chunk_alloc_model(c, c.free).free == 0,
        !can_allocate(chunk_alloc_model(c, c.free), 1),
{
    lemma_first_fit_ensures(c.regions, c.free);
    if first_fit(c.regions, c.free) is None {
        assert(range_len(c.regions[i]) < c.free);
    }
}

/// Carving the first-fit range out of a well-formed chunk yields a
/// well-formed chunk again.
proof fn lemma_allocate_preserves_wf(c: ChunkModel, n: int)
    requires
        chunk_wf(c),
        0 <= n,
        can_allocate(c, n),
    ensures
        chunk_wf(chunk_alloc_model(c, n)),
{
    lemma_first_fit_ensures(c.regions, n);
    let i = first_fit(c.regions, n)->Some_0;
    let r = c.regions[i];
    let carved = chunk_alloc_range(c, n);
    let shrunk = (r.0 + n, r.1);
    let post = chunk_alloc_model(c, n);
    lemma_sum_lens_update(c.regions, i, shrunk);
    lemma_sum_lens_push(c.live, carved);
    assert(post.regions[i] == shrunk);
    assert(forall|j: int| 0 <= j < post.regions.len() && j != i ==> post.regions[j] == c.regions[j]);
    assert(forall|j: int| 0 <= j < c.live.len() ==> post.live[j] == c.live[j]);
    assert(post.live[c.live.len() as int] == carved);
}

/// Handing a live range back to a well-formed chunk yields a well-formed
/// chunk again.
proof fn lemma_deallocate_preserves_wf(c: ChunkModel, r: RangeModel)
    requires
        chunk_wf(c),
        c.live.contains(r),
    ensures
        chunk_wf(chunk_dealloc_model(c, r)),
        chunk_dealloc_model(c, r).free <= c.size,
{
    let post = chunk_dealloc_model(c, r);
    lemma_remove_first_is_remove(c.live, r);
    let k = choose|k: int|
        0 <= k < c.live.len() && c.live[k] == r && remove_first(c.live, r) == c.live.remove(k);
    lemma_sum_lens_remove(c.live, k);
    lemma_sum_lens_push(c.regions, r);
    lemma_sum_lens_nonneg(c.live.remove(k));
    assert(forall|j: int| 0 <= j < c.regions.len() ==> post.regions[j] == c.regions[j]);
    assert(post.regions[c.regions.len() as int] == r);
    assert(forall|j: int|
        0 <= j < post.live.len() ==> post.live[j] == (if j < k {
            c.live[j]
        } else {
            c.live[j + 1]
        }));
}

} // verus!
