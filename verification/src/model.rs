//! The mathematical model of the allocator.
//!
//! A chunk is modelled by the byte ranges it has handed out and the byte
//! ranges it still holds free; both are sequences of `[start, end)` pairs
//! over mathematical integers. The executable types ([`crate::Memory`],
//! [`crate::DefaultChunk`], [`crate::DefaultGpuAllocator`]) state their
//! contracts in terms of these models.

use vstd::prelude::*;

verus! {

/// A byte range `[start, end)` inside one chunk, as mathematical integers.
pub type RangeModel = (int, int);

/// The number of bytes a range covers.
pub open spec fn range_len(r: RangeModel) -> int {
    r.1 - r.0
}

/// The endpoints are ordered and lie inside a chunk of `size` bytes.
pub open spec fn range_within(r: RangeModel, size: int) -> bool {
    0 <= r.0 <= r.1 <= size
}

/// `a` and `b` share no byte. An empty range is disjoint from every range
/// it merely touches.
pub open spec fn ranges_disjoint(a: RangeModel, b: RangeModel) -> bool {
    a.1 <= b.0 || b.1 <= a.0
}

pub open spec fn all_within(s: Seq<RangeModel>, size: int) -> bool {
    forall|i: int| 0 <= i < s.len() ==> range_within(#[trigger] s[i], size)
}

pub open spec fn all_ordered(s: Seq<RangeModel>) -> bool {
    forall|i: int| 0 <= i < s.len() ==> (#[trigger] s[i]).0 <= s[i].1
}

pub open spec fn pairwise_disjoint(s: Seq<RangeModel>) -> bool {
    forall|i: int, j: int|
        0 <= i < s.len() && 0 <= j < s.len() && i != j ==> ranges_disjoint(
            #[trigger] s[i],
            #[trigger] s[j],
        )
}

pub open spec fn cross_disjoint(s: Seq<RangeModel>, t: Seq<RangeModel>) -> bool {
    forall|i: int, j: int|
        0 <= i < s.len() && 0 <= j < t.len() ==> ranges_disjoint(#[trigger] s[i], #[trigger] t[j])
}

/// Total number of bytes covered by the ranges of `s`.
pub open spec fn sum_lens(s: Seq<RangeModel>) -> int
    decreases s.len(),
{
    if s.len() == 0 {
        0
    } else {
        range_len(s[0]) + sum_lens(s.drop_first())
    }
}

/// Index of the first range of `s` that holds at least `n` bytes.
pub open spec fn first_fit(s: Seq<RangeModel>, n: int) -> Option<int>
    decreases s.len(),
{
    if s.len() == 0 {
        None
    } else if range_len(s[0]) >= n {
        Some(0)
    } else {
        match first_fit(s.drop_first(), n) {
            Some(i) => Some(i + 1),
            None => None,
        }
    }
}

/// `s` with its first occurrence of `r` removed (all of `s` if there is none).
pub open spec fn remove_first(s: Seq<RangeModel>, r: RangeModel) -> Seq<RangeModel>
    decreases s.len(),
{
    if s.len() == 0 {
        s
    } else if s[0] == r {
        s.drop_first()
    } else {
        seq![s[0]] + remove_first(s.drop_first(), r)
    }
}

/// One memory handle: the byte range it owns, the chunk the range was carved
/// from, and its lifecycle flags.
#[verifier::ext_equal]
pub ghost struct MemoryModel {
    pub range: RangeModel,
    pub chunk_id: int,
    pub is_freed: bool,
    pub is_allocated: bool,
}

/// One chunk: a single device allocation of `size` bytes, split by
/// bookkeeping into free ranges (`regions`, in list order) and the ranges
/// checked out to live handles (`live`, in allocation order).
#[verifier::ext_equal]
pub ghost struct ChunkModel {
    pub size: int,
    pub free: int,
    pub memory_id: int,
    pub id: int,
    pub regions: Seq<RangeModel>,
    pub live: Seq<RangeModel>,
}

/// Well-formedness of a chunk: every byte of the chunk is accounted for
/// exactly once, either by a free range or by a live handle, and `free`
/// caches the total length of the free ranges.
pub open spec fn chunk_wf(c: ChunkModel) -> bool {
    &&& 0 <= c.size <= u32::MAX as int
    &&& 0 <= c.memory_id <= usize::MAX as int
    &&& 0 <= c.id <= u64::MAX as int
    &&& all_within(c.regions, c.size)
    &&& all_within(c.live, c.size)
    &&& pairwise_disjoint(c.regions)
    &&& pairwise_disjoint(c.live)
    &&& cross_disjoint(c.regions, c.live)
    &&& c.free == sum_lens(c.regions)
    &&& sum_lens(c.regions) + sum_lens(c.live) == c.size
}

/// A chunk as its constructor returns it: one free range spanning the whole
/// allocation, nothing handed out.
pub open spec fn fresh_chunk_model(memory_id: int, size: int, id: int) -> ChunkModel {
    ChunkModel {
        size,
        free: size,
        memory_id,
        id,
        regions: seq![(0int, size)],
        live: Seq::empty(),
    }
}

/// An allocation of `n` bytes succeeds exactly when `n` does not exceed the
/// free-byte counter and some single free range holds `n` bytes.
pub open spec fn can_allocate(c: ChunkModel, n: int) -> bool {
    n <= c.free && first_fit(c.regions, n) is Some
}

/// The range a successful allocation of `n` bytes returns: the first `n`
/// bytes of the first free range that can hold them.
pub open spec fn chunk_alloc_range(c: ChunkModel, n: int) -> RangeModel {
    let i = first_fit(c.regions, n)->Some_0;
    (c.regions[i].0, c.regions[i].0 + n)
}

/// The chunk after a successful allocation of `n` bytes: the chosen free
/// range shrinks in place, the carved range becomes live.
pub open spec fn chunk_alloc_model(c: ChunkModel, n: int) -> ChunkModel {
    let i = first_fit(c.regions, n)->Some_0;
    ChunkModel {
        free: c.free - n,
        regions: c.regions.update(i, (c.regions[i].0 + n, c.regions[i].1)),
        live: c.live.push(chunk_alloc_range(c, n)),
        ..c
    }
}

/// The chunk after `r` is handed back: `r` stops being live and is appended
/// to the end of the free list, never merged with its neighbours.
pub open spec fn chunk_dealloc_model(c: ChunkModel, r: RangeModel) -> ChunkModel {
    ChunkModel {
        free: c.free + range_len(r),
        regions: c.regions.push(r),
        live: remove_first(c.live, r),
        ..c
    }
}

/// The pool: whether `init` has run, and the chunks in creation order (the
/// chunk with id `i` sits at index `i`).
#[verifier::ext_equal]
pub ghost struct PoolModel {
    pub initialized: bool,
    pub chunks: Seq<ChunkModel>,
}

/// Index of the first chunk that was allocated against `memory_id` and can
/// satisfy a request of `n` bytes.
pub open spec fn pool_find(chunks: Seq<ChunkModel>, memory_id: int, n: int) -> Option<int>
    decreases chunks.len(),
{
    if chunks.len() == 0 {
        None
    } else if chunks[0].memory_id == memory_id && can_allocate(chunks[0], n) {
        Some(0)
    } else {
        match pool_find(chunks.drop_first(), memory_id, n) {
            Some(i) => Some(i + 1),
            None => None,
        }
    }
}

pub proof fn lemma_sum_lens_nonneg(s: Seq<RangeModel>)
    requires
        all_ordered(s),
    ensures
        sum_lens(s) >= 0,
    decreases s.len(),
{
    if s.len() > 0 {
        assert(all_ordered(s.drop_first()));
        lemma_sum_lens_nonneg(s.drop_first());
    }
}

pub proof fn lemma_sum_lens_push(s: Seq<RangeModel>, r: RangeModel)
    ensures
        sum_lens(s.push(r)) == sum_lens(s) + range_len(r),
    decreases s.len(),
{
    if s.len() == 0 {
        reveal_with_fuel(sum_lens, 2);
        assert(s.push(r)[0] == r);
        assert(s.push(r).drop_first() =~= Seq::empty());
    } else {
        assert(s.push(r)[0] == s[0]);
        assert(s.push(r).drop_first() =~= s.drop_first().push(r));
        lemma_sum_lens_push(s.drop_first(), r);
    }
}

pub proof fn lemma_sum_lens_update(s: Seq<RangeModel>, i: int, r: RangeModel)
    requires
        0 <= i < s.len(),
    ensures
        sum_lens(s.update(i, r)) == sum_lens(s) - range_len(s[i]) + range_len(r),
    decreases s.len(),
{
    if i == 0 {
        assert(s.update(0, r).drop_first() =~= s.drop_first());
    } else {
        assert(s.update(i, r).drop_first() =~= s.drop_first().update(i - 1, r));
        lemma_sum_lens_update(s.drop_first(), i - 1, r);
    }
}

pub proof fn lemma_sum_lens_remove(s: Seq<RangeModel>, k: int)
    requires
        0 <= k < s.len(),
    ensures
        sum_lens(s.remove(k)) == sum_lens(s) - range_len(s[k]),
    decreases s.len(),
{
    if k == 0 {
        assert(s.remove(0) =~= s.drop_first());
    } else {
        assert(s.remove(k).drop_first() =~= s.drop_first().remove(k - 1));
        assert(s.remove(k)[0] == s[0]);
        lemma_sum_lens_remove(s.drop_first(), k - 1);
    }
}

pub proof fn lemma_first_fit_ensures(s: Seq<RangeModel>, n: int)
    ensures
        match first_fit(s, n) {
            Some(i) => {
                &&& 0 <= i < s.len()
                &&& range_len(s[i]) >= n
                &&& forall|j: int| 0 <= j < i ==> range_len(#[trigger] s[j]) < n
            },
            None => forall|j: int| 0 <= j < s.len() ==> range_len(#[trigger] s[j]) < n,
        },
    decreases s.len(),
{
    if s.len() > 0 && range_len(s[0]) < n {
        lemma_first_fit_ensures(s.drop_first(), n);
        match first_fit(s, n) {
            Some(i) => {
                assert(s[i] == s.drop_first()[i - 1]);
                assert forall|j: int| 0 <= j < i implies range_len(#[trigger] s[j]) < n by {
                    if j > 0 {
                        assert(s[j] == s.drop_first()[j - 1]);
                    }
                }
            },
            None => {
                assert forall|j: int| 0 <= j < s.len() implies range_len(#[trigger] s[j]) < n by {
                    if j > 0 {
                        assert(s[j] == s.drop_first()[j - 1]);
                    }
                }
            },
        }
    }
}

pub proof fn lemma_remove_first_is_remove(s: Seq<RangeModel>, r: RangeModel)
    requires
        s.contains(r),
    ensures
        exists|k: int|
            0 <= k < s.len() && s[k] == r && remove_first(s, r) == #[trigger] s.remove(k),
    decreases s.len(),
{
    if s[0] == r {
        assert(s.remove(0) =~= s.drop_first());
        assert(remove_first(s, r) == s.remove(0));
    } else {
        let i = choose|i: int| 0 <= i < s.len() && s[i] == r;
        assert(s.drop_first()[i - 1] == r);
        assert(s.drop_first().contains(r));
        lemma_remove_first_is_remove(s.drop_first(), r);
        let k = choose|k: int|
            0 <= k < s.drop_first().len() && s.drop_first()[k] == r && remove_first(
                s.drop_first(),
                r,
            ) == s.drop_first().remove(k);
        assert(seq![s[0]] + s.drop_first().remove(k) =~= s.remove(k + 1));
        assert(remove_first(s, r) == s.remove(k + 1));
    }
}

/// A single range never covers more bytes than its whole sequence.
pub proof fn lemma_sum_lens_element_bound(s: Seq<RangeModel>, k: int)
    requires
        all_ordered(s),
        0 <= k < s.len(),
    ensures
        range_len(s[k]) <= sum_lens(s),
{
    lemma_sum_lens_remove(s, k);
    assert(all_ordered(s.remove(k))) by {
        assert(forall|i: int|
            0 <= i < s.remove(k).len() ==> (#[trigger] s.remove(k)[i]) == if i < k {
                s[i]
            } else {
                s[i + 1]
            });
    }
    lemma_sum_lens_nonneg(s.remove(k));
}

pub proof fn lemma_pool_find_ensures(chunks: Seq<ChunkModel>, memory_id: int, n: int)
    ensures
        match pool_find(chunks, memory_id, n) {
            Some(i) => {
                &&& 0 <= i < chunks.len()
                &&& chunks[i].memory_id == memory_id
                &&& can_allocate(chunks[i], n)
                &&& forall|j: int|
                    0 <= j < i ==> !((#[trigger] chunks[j]).memory_id == memory_id
                        && can_allocate(chunks[j], n))
            },
            None => forall|j: int|
                0 <= j < chunks.len() ==> !((#[trigger] chunks[j]).memory_id == memory_id
                    && can_allocate(chunks[j], n)),
        },
    decreases chunks.len(),
{
    if chunks.len() > 0 && !(chunks[0].memory_id == memory_id && can_allocate(chunks[0], n)) {
        lemma_pool_find_ensures(chunks.drop_first(), memory_id, n);
        match pool_find(chunks, memory_id, n) {
            Some(i) => {
                assert(chunks[i] == chunks.drop_first()[i - 1]);
                assert forall|j: int|
                    0 <= j < i implies !((#[trigger] chunks[j]).memory_id == memory_id
                    && can_allocate(chunks[j], n)) by {
                    if j > 0 {
                        assert(chunks[j] == chunks.drop_first()[j - 1]);
                    }
                }
            },
            None => {
                assert forall|j: int|
                    0 <= j < chunks.len() implies !((#[trigger] chunks[j]).memory_id == memory_id
                    && can_allocate(chunks[j], n)) by {
                    if j > 0 {
                        assert(chunks[j] == chunks.drop_first()[j - 1]);
                    }
                }
            },
        }
    }
}

} // verus!

