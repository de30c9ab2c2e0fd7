//! Page-grained frame allocators for the kernel.
use vstd::prelude::*;
use vstd::arithmetic::power2::{pow2, lemma_pow2_pos};
use crate::align::{Align, align_down_spec, is_power_of_two, aligned, align_up_spec, usize_is_power_of_two, lemma_aligned_headroom_usize, lemma_align_up_props, lemma_mask_ops};
use crate::mm::addr::PhysAddr;
use crate::page_bitmap::{
    PAGE_FREE, PAGE_TAKEN, PAGE_LAST, valid_states, run_free, no_run_before, no_run, marked_run,
    first_last, chunk_tail_intact, released_from, lemma_first_last, find_free_run, mark_run,
    release_from, lemma_marked_first_last,
};

verus! {

/// The error type returned by fallible allocator operations.
#[derive(Debug, Clone, Copy, PartialEq, Eq, Structural)]
pub enum AllocatorError {
    /// The provided address is not properly aligned.
    UnalignedAddress,
    /// The provided page size is not valid.
    InvalidPageSize,
}

/// A physical memory frame allocated using a [`FrameAllocator`].
#[derive(Debug)]
pub struct Frame {
    paddr: PhysAddr,
}

impl Frame {
    /// Creates a frame for the given physical address, not tied to any allocation.
    ///
    /// Useful to hand a frame back to the allocator when only its address is known.
    pub fn unmapped(paddr: PhysAddr) -> (r: Self)
        ensures
            r.phys_spec() == paddr,
    {
        Frame { paddr }
    }

    /// The physical address of the frame.
    pub closed spec fn phys_spec(&self) -> PhysAddr {
        self.paddr
    }

    /// Returns the physical address of the frame.
    pub fn phys(&self) -> (r: PhysAddr)
        ensures
            r == self.phys_spec(),
    {
        self.paddr
    }
}

/// A page-grained memory allocator with pages of `N` bytes.
pub trait FrameAllocator<const N: usize> {
    /// The allocator's internal consistency.
    spec fn inv(&self) -> bool;

    /// The frame may be handed back to this allocator.
    spec fn free_req(&self, frame: &Frame) -> bool;

    /// A request for `count` pages may be made to this allocator.
    spec fn alloc_req(&self, count: usize) -> bool;

    /// Allocates a memory section of `count` contiguous pages. If no contiguous section
    /// of the specified size can be allocated, `None` is returned.
    fn allocate(&mut self, count: usize) -> (r: Option<Frame>)
        requires
            old(self).inv(),
            old(self).alloc_req(count),
        ensures
            final(self).inv(),
    ;

    /// Releases the allocated memory starting at the specified address back to the allocator.
    fn free(&mut self, frame: Frame)
        requires
            old(self).inv(),
            old(self).free_req(&frame),
        ensures
            final(self).inv(),
    ;
}

/// Start of the allocatable memory once the descriptors for `[start, end)` are reserved.
pub open spec fn avail_start(start: int, end: int, n: int) -> int {
    align_up_spec(start + (end - start) / n, n)
}

/// Number of allocatable pages in `[start, end)`.
pub open spec fn avail_pages(start: int, end: int, n: int) -> int {
    (end - avail_start(start, end, n)) / n
}

/// A frame allocator storing page state as a bitmap of page descriptors.
///
/// Pages are numbered from `base_addr`; page `i` starts at `base_addr + i * N`.
#[derive(Debug)]
pub struct BitmapAllocator<const N: usize> {
    descriptors: Vec<u8>,
    base_addr: PhysAddr,
    num_pages: usize,
}

/// Every page marked as inside a chunk is followed by another page of the same chunk.
pub open spec fn chunks_closed(s: Seq<u8>) -> bool {
    &&& forall|i: int, j: int|
        #![trigger s[i], s[j]]
        0 <= i && j == i + 1 && j < s.len() && s[i] == PAGE_TAKEN ==> s[j] == PAGE_TAKEN || s[j]
            == PAGE_LAST
    &&& s.len() > 0 ==> s[s.len() - 1] != PAGE_TAKEN
}

impl<const N: usize> BitmapAllocator<N> {
    /// The page descriptors, page `i` first.
    pub closed spec fn pages(&self) -> Seq<u8> {
        self.descriptors@
    }

    /// Address of the first managed page.
    pub closed spec fn base(&self) -> usize {
        self.base_addr@
    }

    /// Internal consistency: one descriptor per page, well-formed chunks, and all page
    /// addresses representable.
    pub closed spec fn wf(&self) -> bool {
        &&& self.descriptors.len() == self.num_pages
        &&& valid_states(self.descriptors@)
        &&& chunks_closed(self.descriptors@)
        &&& is_power_of_two(N as nat)
        &&& self.base_addr@ + self.num_pages * N <= usize::MAX
        &&& aligned(self.base_addr@ as int, N as int)
    }

    /// A consistent allocator has pages whose size is a non-zero power of two.
    pub proof fn lemma_page_size(&self)
        requires
            self.wf(),
        ensures
            is_power_of_two(N as nat),
            N > 0,
    {
        let k = choose|k: nat| pow2(k) == N as nat;
        lemma_pow2_pos(k);
    }

    /// Freeing the frame that `allocate` returned gives back exactly the page descriptors from
    /// before the allocation: the chunk's pages become free again and every other page keeps
    /// its state.
    pub proof fn lemma_free_undoes_allocate(before: &Self, after: &Self, count: usize, frame: &Frame)
        requires
            before.wf(),
            count > 0,
            after.base() == before.base(),
            exists|i: int|
                #![trigger run_free(before.pages(), i, count as int)]
                run_free(before.pages(), i, count as int) && frame.phys_spec()@ == before.page_addr(i)
                    && after.pages() == marked_run(before.pages(), i, count as int),
        ensures
            released_from(after.pages(), (frame.phys_spec()@ - after.base()) / N as int) == before.pages(),
    {
        let i = choose|i: int|
            #![trigger run_free(before.pages(), i, count as int)]
            run_free(before.pages(), i, count as int) && frame.phys_spec()@ == before.page_addr(i)
                && after.pages() == marked_run(before.pages(), i, count as int);
        before.lemma_page_size();
        let n = N as int;
        assert((frame.phys_spec()@ - after.base()) == n * i) by (nonlinear_arith)
            requires
                frame.phys_spec()@ == before.base() + i * n,
                after.base() == before.base();
        vstd::arithmetic::div_mod::lemma_div_multiples_vanish(i, n);
        lemma_free_undoes_alloc(before.pages(), i, count as int);
    }

    /// Address of page `i`.
    pub open spec fn page_addr(&self, i: int) -> int {
        self.base() + i * N
    }

    /// Creates a new bitmap allocator taking ownership of the memory delimited by addresses
    /// `start` and `end`, and allocating pages of size `N`.
    ///
    /// Returns an `AllocatorError` if any of the following conditions are not met:
    ///  - `N` is a non-zero power of two,
    ///  - `start` and `end` are page-aligned.
    ///
    /// One descriptor byte per page of `[start, end)` is reserved at the start of the
    /// region; the allocatable pages start at the next page boundary after it.
    pub fn init(start: PhysAddr, end: PhysAddr) -> (r: Result<Self, AllocatorError>)
        requires
            is_power_of_two(N as nat) && aligned(start@ as int, N as int) && aligned(
                end@ as int,
                N as int,
            ) ==> start@ <= end@,
        ensures
            !is_power_of_two(N as nat) ==> r == Err::<Self, AllocatorError>(
                AllocatorError::InvalidPageSize,
            ),
            is_power_of_two(N as nat) && !(aligned(start@ as int, N as int) && aligned(
                end@ as int,
                N as int,
            )) ==> r == Err::<Self, AllocatorError>(AllocatorError::UnalignedAddress),
            is_power_of_two(N as nat) && aligned(start@ as int, N as int) && aligned(
                end@ as int,
                N as int,
            ) ==> r is Ok && r->Ok_0.wf() && r->Ok_0.base() == avail_start(
                start@ as int,
                end@ as int,
                N as int,
            ) && r->Ok_0.pages() == Seq::new(
                avail_pages(start@ as int, end@ as int, N as int) as nat,
                |i: int| PAGE_FREE,
            ),
    {
        if N == 0 || !usize_is_power_of_two(N) {
            proof {
                if N == 0 && is_power_of_two(N as nat) {
                    lemma_mask_ops(0, N as u64);
                }
            }
            return Err(AllocatorError::InvalidPageSize);
        }
        if !start.is_aligned(N) || !end.is_aligned(N) {
            return Err(AllocatorError::UnalignedAddress);
        }
        proof {
            lemma_mask_ops(0, N as u64);
        }
        let total_mem_size = (end - start).as_usize();
        let total_num_pages = total_mem_size / N;

        // A portion of memory starting from `start` is reserved to hold page descriptors
        // (one byte each). Memory available for allocation starts after it.
        let reserved_mem = total_num_pages;
        proof {
            vstd::arithmetic::div_mod::lemma_div_is_ordered_by_denominator(
                total_mem_size as int,
                1,
                N as int,
            );
            lemma_aligned_headroom_usize(end@, N);
        }
        let unaligned_start = start + reserved_mem;
        let avail_mem_start = unaligned_start.align_up(N);
        proof {
            lemma_align_up_props(unaligned_start@ as int, N as int);
            // `end` is a multiple of `N` at or above `unaligned_start`, so rounding up cannot
            // pass it.
            vstd::arithmetic::div_mod::lemma_fundamental_div_mod(end@ as int, N as int);
            vstd::arithmetic::div_mod::lemma_fundamental_div_mod(unaligned_start@ as int, N as int);
            if avail_mem_start@ > end@ {
                let q = unaligned_start@ as int / N as int;
                let qe = end@ as int / N as int;
                assert(unaligned_start@ % N != 0);
                assert(avail_mem_start@ == N * q + N);
                assert(end@ == N * qe);
                assert(N * qe >= N * q + 1);
                assert(qe >= q + 1) by (nonlinear_arith)
                    requires N * qe >= N * q + 1, N > 0;
                assert(N * qe >= N * (q + 1)) by (nonlinear_arith)
                    requires qe >= q + 1, N > 0;
                assert(N * (q + 1) == N * q + N) by (nonlinear_arith);
                assert(false);
            }
        }
        let avail_mem_size = end - avail_mem_start;
        let avail_pages = avail_mem_size.as_usize() / N;
        proof {
            vstd::arithmetic::div_mod::lemma_fundamental_div_mod(avail_mem_size@ as int, N as int);
            vstd::arithmetic::div_mod::lemma_mod_pos_bound(avail_mem_size@ as int, N as int);
            assert(avail_pages * N <= avail_mem_size@) by (nonlinear_arith)
                requires
                    avail_mem_size@ == N * (avail_mem_size@ / N) + avail_mem_size@ % N,
                    avail_mem_size@ % N >= 0,
                    avail_pages == avail_mem_size@ / N;
        }

        // Initially mark all pages as free.
        let mut descriptors: Vec<u8> = Vec::new();
        let mut i: usize = 0;
        while i < avail_pages
            invariant
                i <= avail_pages,
                descriptors@ == Seq::new(i as nat, |k: int| PAGE_FREE),
            decreases avail_pages - i,
        {
            descriptors.push(PAGE_FREE);
            i += 1;
            assert(descriptors@ =~= Seq::new(i as nat, |k: int| PAGE_FREE));
        }
        Ok(Self { descriptors, base_addr: avail_mem_start, num_pages: avail_pages })
    }

    /// Returns the number of allocatable pages.
    pub fn num_pages(&self) -> (r: usize)
        requires
            self.wf(),
        ensures
            r == self.pages().len(),
    {
        self.num_pages
    }

    /// Returns the address of the first allocatable page.
    pub fn base_addr(&self) -> (r: PhysAddr)
        ensures
            r@ == self.base(),
    {
        self.base_addr
    }

    /// Returns the descriptor of page `i`: `0` when free, `1` for a page inside an
    /// allocated chunk, `2` for the last page of an allocated chunk.
    pub fn page_state(&self, i: usize) -> (r: u8)
        requires
            i < self.pages().len(),
        ensures
            r == self.pages()[i as int],
    {
        self.descriptors[i]
    }
}


/// Marking a free run as a chunk keeps the descriptors well-formed.
proof fn lemma_mark_keeps_chunks(s: Seq<u8>, i: int, count: int)
    requires
        valid_states(s),
        chunks_closed(s),
        run_free(s, i, count),
        count > 0,
    ensures
        valid_states(marked_run(s, i, count)),
        chunks_closed(marked_run(s, i, count)),
{
    let m = marked_run(s, i, count);
    assert forall|a: int, b: int|
        #![trigger m[a], m[b]]
        0 <= a && b == a + 1 && b < m.len() && m[a] == PAGE_TAKEN implies m[b] == PAGE_TAKEN || m[b]
            == PAGE_LAST by {
        if i <= a < i + count - 1 {
        } else {
            assert(s[a] == PAGE_TAKEN);
            assert(s[b] == PAGE_TAKEN || s[b] == PAGE_LAST);
            if i <= b < i + count {
                assert(s[b] == PAGE_FREE);
            }
        }
    }
    if m.len() > 0 {
        let l = m.len() - 1;
        if m[l] == PAGE_TAKEN {
            assert(s[l] == PAGE_TAKEN || (i <= l < i + count - 1));
        }
    }
    assert forall|k: int| 0 <= k < m.len() implies #[trigger] m[k] == PAGE_FREE || m[k] == PAGE_TAKEN
        || m[k] == PAGE_LAST by {
        assert(s[k] == PAGE_FREE || s[k] == PAGE_TAKEN || s[k] == PAGE_LAST);
    }
}

/// From an allocated page, the rest of its chunk is intact and ends within the descriptors.
proof fn lemma_chunk_tail(s: Seq<u8>, offset: int)
    requires
        valid_states(s),
        chunks_closed(s),
        0 <= offset < s.len(),
        s[offset] != PAGE_FREE,
    ensures
        chunk_tail_intact(s, offset),
        first_last(s, offset) < s.len(),
    decreases s.len() - offset,
{
    assert(s[offset] == PAGE_TAKEN || s[offset] == PAGE_LAST);
    if s[offset] == PAGE_TAKEN {
        assert(offset + 1 < s.len());
        assert(s[offset + 1] == PAGE_TAKEN || s[offset + 1] == PAGE_LAST);
        lemma_chunk_tail(s, offset + 1);
        assert(first_last(s, offset) == first_last(s, offset + 1));
    }
}

/// Releasing a whole chunk keeps the descriptors well-formed.
proof fn lemma_release_keeps_chunks(s: Seq<u8>, offset: int)
    requires
        valid_states(s),
        chunks_closed(s),
        0 <= offset < s.len(),
        s[offset] != PAGE_FREE,
        offset == 0 || s[offset - 1] != PAGE_TAKEN,
    ensures
        valid_states(released_from(s, offset)),
        chunks_closed(released_from(s, offset)),
{
    lemma_chunk_tail(s, offset);
    lemma_first_last(s, offset);
    let fl = first_last(s, offset);
    let r = released_from(s, offset);
    assert forall|a: int, b: int|
        #![trigger r[a], r[b]]
        0 <= a && b == a + 1 && b < r.len() && r[a] == PAGE_TAKEN implies r[b] == PAGE_TAKEN || r[b]
            == PAGE_LAST by {
        assert(s[a] == PAGE_TAKEN);
        assert(s[b] == PAGE_TAKEN || s[b] == PAGE_LAST);
        if a > fl {
        } else if a == fl {
        } else {
            assert(b < offset);
        }
    }
    assert forall|k: int| 0 <= k < r.len() implies #[trigger] r[k] == PAGE_FREE || r[k] == PAGE_TAKEN
        || r[k] == PAGE_LAST by {
        assert(s[k] == PAGE_FREE || s[k] == PAGE_TAKEN || s[k] == PAGE_LAST);
    }
}

/// Freeing the first page of a chunk that `alloc` just created is accepted, and gives back
/// exactly the descriptors from before the allocation.
pub proof fn lemma_free_undoes_alloc(s: Seq<u8>, i: int, count: int)
    requires
        valid_states(s),
        chunks_closed(s),
        run_free(s, i, count),
        count > 0,
    ensures
        marked_run(s, i, count)[i] != PAGE_FREE,
        i == 0 || marked_run(s, i, count)[i - 1] != PAGE_TAKEN,
        released_from(marked_run(s, i, count), i) == s,
{
    let m = marked_run(s, i, count);
    if i > 0 {
        if s[i - 1] == PAGE_TAKEN {
            assert(s[i] == PAGE_FREE);
            assert(s[i] == PAGE_TAKEN || s[i] == PAGE_LAST);
        }
    }
    lemma_marked_first_last(s, i, count, i);
    assert(released_from(m, i) =~= s);
}

impl<const N: usize> FrameAllocator<N> for BitmapAllocator<N> {
    open spec fn inv(&self) -> bool {
        self.wf()
    }

    open spec fn alloc_req(&self, count: usize) -> bool {
        true
    }

    /// The frame starts a chunk handed out by `alloc`: it is page-aligned, inside the
    /// managed range, its page is allocated, and the page before it does not belong to the
    /// same chunk.
    open spec fn free_req(&self, frame: &Frame) -> bool {
        let a = frame.phys_spec()@ as int;
        let offset = (a - self.base()) / N as int;
        &&& aligned(a, N as int)
        &&& a >= self.base()
        &&& offset < self.pages().len()
        &&& self.pages()[offset] != PAGE_FREE
        &&& (offset == 0 || self.pages()[offset - 1] != PAGE_TAKEN)
    }

    /// Allocates the first run of `count` free pages, marking all but its last page as
    /// inside a chunk and its last page as the chunk end. A request for zero pages, or one
    /// that no run of free pages can hold, returns `None` and changes nothing.
    fn allocate(&mut self, count: usize) -> (r: Option<Frame>)
        ensures
            final(self).base() == old(self).base(),
            count == 0 ==> r is None && final(self).pages() == old(self).pages(),
            count > 0 && r is None ==> no_run(old(self).pages(), count as int) && final(self).pages() == old(self).pages(),
            count > 0 && no_run(old(self).pages(), count as int) ==> r is None,
            r matches Some(f) ==> exists|i: int|
                #![trigger run_free(old(self).pages(), i, count as int)]
                run_free(old(self).pages(), i, count as int) && no_run_before(
                    old(self).pages(),
                    i,
                    count as int,
                ) && f.phys_spec()@ == old(self).page_addr(i) && final(self).pages()
                    == marked_run(old(self).pages(), i, count as int),
            r matches Some(f) ==> final(self).free_req(&f),
    {
        if count == 0 {
            return None;
        }
        match find_free_run(&self.descriptors, count) {
            None => None,
            Some(i) => {
                proof {
                    lemma_mark_keeps_chunks(self.descriptors@, i as int, count as int);
                    vstd::arithmetic::mul::lemma_mul_inequality(
                        i as int,
                        self.num_pages as int,
                        N as int,
                    );
                }
                mark_run(&mut self.descriptors, i, count);
                let paddr = self.base_addr + i * N;
                assert(run_free(old(self).pages(), i as int, count as int));
                proof {
                    let s = old(self).descriptors@;
                    let b = old(self).base_addr@ as int;
                    let ii = i as int;
                    let n = N as int;
                    assert(s[ii] == PAGE_FREE);
                    if ii > 0 {
                        assert(s[ii - 1] != PAGE_TAKEN);
                    }
                    let k = choose|k: nat| pow2(k) == N as nat;
                    lemma_pow2_pos(k);
                    assert(n * ii == ii * n) by (nonlinear_arith);
                    vstd::arithmetic::div_mod::lemma_div_multiples_vanish(ii, n);
                    vstd::arithmetic::div_mod::lemma_mod_multiples_vanish(ii, b, n);
                    assert(b + ii * n - b == n * ii);
                }
                Some(Frame { paddr })
            },
        }
    }

    /// Releases the chunk that starts at the frame's page.
    fn free(&mut self, frame: Frame)
        ensures
            final(self).base() == old(self).base(),
            final(self).pages() == released_from(
                old(self).pages(),
                (frame.phys_spec()@ - old(self).base()) / N as int,
            ),
    {
        let paddr = frame.phys();
        proof {
            lemma_mask_ops(0, N as u64);
        }
        let offset = (paddr - self.base_addr).as_usize() / N;
        proof {
            lemma_chunk_tail(self.descriptors@, offset as int);
            lemma_release_keeps_chunks(self.descriptors@, offset as int);
        }
        release_from(&mut self.descriptors, offset);
    }
}


/// Bump state: allocations are carved from `[start, end)`, `ptr` marks the boundary.
#[derive(Debug)]
struct BumpImpl {
    start: usize,
    end: usize,
    ptr: usize,
    allocated: usize,
}

/// A simple bump allocator for byte allocations.
///
/// A bump allocator behaves as a stack that can only grow. At each allocation, a new chunk
/// is reserved below the previously allocated chunk, growing downwards from `end`.
/// Memory is released only when all allocations have been released, at which point the
/// allocator is reset.
#[derive(Debug)]
pub struct BumpAllocator {
    inner: BumpImpl,
}

impl BumpAllocator {
    /// Lower bound of the managed region.
    pub closed spec fn start(&self) -> usize {
        self.inner.start
    }

    /// Upper bound of the managed region.
    pub closed spec fn end(&self) -> usize {
        self.inner.end
    }

    /// Lowest address handed out so far (or `end` when nothing is allocated).
    pub closed spec fn ptr(&self) -> usize {
        self.inner.ptr
    }

    /// Number of live allocations.
    pub closed spec fn allocated(&self) -> usize {
        self.inner.allocated
    }

    /// Creates a new bump allocator over `[start, end)`.
    pub fn new(start: usize, end: usize) -> (r: Self)
        requires
            start <= end,
        ensures
            r.start() == start,
            r.end() == end,
            r.ptr() == end,
            r.allocated() == 0,
    {
        BumpAllocator { inner: BumpImpl { start, end, ptr: end, allocated: 0 } }
    }

    /// The number of live allocations.
    pub fn allocations(&self) -> (r: usize)
        ensures
            r == self.allocated(),
    {
        self.inner.allocated
    }

    /// Reserves `size` bytes aligned to `align` just below the previous allocation.
    ///
    /// Returns the address of the reserved memory, or `0` (a null pointer) when the region
    /// is exhausted, in which case nothing changes.
    pub fn allocate(&mut self, size: usize, align: usize) -> (r: usize)
        requires
            is_power_of_two(align as nat),
            old(self).allocated() < usize::MAX,
        ensures
            final(self).start() == old(self).start(),
            final(self).end() == old(self).end(),
            ({
                let p = old(self).ptr() as int;
                let q = align_down_spec(p - size, align as int);
                if size > p || q < old(self).start() {
                    r == 0 && final(self).ptr() == old(self).ptr() && final(self).allocated()
                        == old(self).allocated()
                } else {
                    r == q && final(self).ptr() == q && final(self).allocated()
                        == old(self).allocated() + 1
                }
            }),
    {
        let ptr = match self.inner.ptr.checked_sub(size) {
            Some(ptr) => ptr,
            None => return 0,
        };
        let ptr = crate::align::align_down_usize(ptr, align);
        if ptr < self.inner.start {
            return 0;
        }
        self.inner.allocated = self.inner.allocated + 1;
        self.inner.ptr = ptr;
        self.inner.ptr
    }

    /// Releases one allocation; once every allocation has been released the whole region
    /// becomes available again.
    pub fn deallocate(&mut self)
        requires
            old(self).allocated() > 0,
        ensures
            final(self).start() == old(self).start(),
            final(self).end() == old(self).end(),
            final(self).allocated() == old(self).allocated() - 1,
            final(self).ptr() == if old(self).allocated() == 1 {
                old(self).end()
            } else {
                old(self).ptr()
            },
    {
        self.inner.allocated = self.inner.allocated - 1;
        if self.inner.allocated == 0 {
            self.inner.ptr = self.inner.end;
        }
    }
}

/// A bump allocator for physical memory. Deallocation is not supported.
pub struct BumpFrameAllocator<const N: usize> {
    inner: BumpImpl,
}

impl<const N: usize> BumpFrameAllocator<N> {
    /// Lower bound of the managed region.
    pub closed spec fn start(&self) -> usize {
        self.inner.start
    }

    /// Upper bound of the managed region.
    pub closed spec fn end(&self) -> usize {
        self.inner.end
    }

    /// Next free address.
    pub closed spec fn ptr(&self) -> usize {
        self.inner.ptr
    }

    /// Number of pages handed out.
    pub closed spec fn allocated(&self) -> usize {
        self.inner.allocated
    }

    /// Creates a new bump allocator handing out the frames of `[start, end)` in order.
    pub fn new(start: PhysAddr, end: PhysAddr) -> (r: Self)
        requires
            start@ <= end@,
        ensures
            r.start() == start@,
            r.end() == end@,
            r.ptr() == start@,
            r.allocated() == 0,
    {
        BumpFrameAllocator {
            inner: BumpImpl {
                start: start.as_usize(),
                end: end.as_usize(),
                ptr: start.as_usize(),
                allocated: 0,
            },
        }
    }
}

impl<const N: usize> FrameAllocator<N> for BumpFrameAllocator<N> {
    open spec fn inv(&self) -> bool {
        self.ptr() <= self.end()
    }

    open spec fn free_req(&self, frame: &Frame) -> bool {
        true
    }

    /// The byte size of the request fits in a `usize`, and the page count can still be
    /// added to the allocation counter.
    open spec fn alloc_req(&self, count: usize) -> bool {
        count * N <= usize::MAX && self.allocated() + count <= usize::MAX
    }

    /// Hands out the next `count * N` bytes, or `None` if they do not fit below `end`.
    fn allocate(&mut self, count: usize) -> (r: Option<Frame>)
        ensures
            final(self).start() == old(self).start(),
            final(self).end() == old(self).end(),
            old(self).ptr() + count * N <= old(self).end() ==> (r matches Some(f) && f.phys_spec()@
                == old(self).ptr() && final(self).ptr() == old(self).ptr() + count * N
                && final(self).allocated() == old(self).allocated() + count),
            old(self).ptr() + count * N > old(self).end() ==> r is None && final(self).ptr()
                == old(self).ptr() && final(self).allocated() == old(self).allocated(),
    {
        let next = match self.inner.ptr.checked_add(count * N) {
            Some(next) => next,
            None => return None,
        };
        if next > self.inner.end {
            return None;
        }
        let frame = Frame { paddr: PhysAddr::new_unchecked(self.inner.ptr) };
        self.inner.ptr = next;
        self.inner.allocated = self.inner.allocated + count;
        Some(frame)
    }

    /// Frames are never reclaimed.
    fn free(&mut self, frame: Frame)
        ensures
            final(self).start() == old(self).start(),
            final(self).end() == old(self).end(),
            final(self).ptr() == old(self).ptr(),
            final(self).allocated() == old(self).allocated(),
    {
    }
}

} // verus!
