//! Collection of memory allocators.
//!
//! The bitmap allocator keeps track of free and allocated pages with one descriptor per
//! page. Each page is free, part of a larger allocated chunk, or the last (or only) page of
//! a chunk; telling the last two apart allows freeing a chunk from its address alone.
use vstd::prelude::*;
use crate::align::{is_power_of_two, aligned, align_up_spec, u64_is_power_of_two, lemma_aligned_headroom_u64, lemma_align_up_props, lemma_mask_ops, is_aligned_u64, align_up_u64};
use crate::kmm::PhysicalAddress;
use crate::page_bitmap::{
    PAGE_FREE, valid_states, run_free, no_run_before, no_run, marked_run, chunk_tail_intact,
    released_from, find_free_run, mark_run, release_from, lemma_release_undoes_mark,
    PAGE_TAKEN, PAGE_LAST, first_last, lemma_first_last,
};
use vstd::arithmetic::power2::{pow2, lemma_pow2_pos};

verus! {

/// The error type returned by fallible allocator operations.
#[derive(Debug, Clone, Copy, PartialEq, Eq, Structural)]
pub enum AllocatorError {
    /// The provided address is not properly aligned.
    UnalignedAddress,
    /// The provided page size is not valid.
    InvalidPageSize,
}

/// A trait for page-grained memory allocators with pages of `N` bytes.
pub trait FrameAllocator<A: PhysicalAddress, const N: u64> {
    /// The allocator's internal consistency.
    spec fn inv(&self) -> bool;

    /// The address may be handed back to this allocator.
    spec fn free_req(&self, address: A) -> bool;

    /// Allocates a memory section of `count` contiguous pages. If no contiguous section
    /// of the specified size can be allocated, `None` is returned.
    fn allocate(&mut self, count: usize) -> (r: Option<A>)
        requires
            old(self).inv(),
        ensures
            final(self).inv(),
    ;

    /// Whether `address` may be handed to `free`.
    fn can_free(&self, address: A) -> (r: bool)
        requires
            self.inv(),
        ensures
            r == self.free_req(address),
    ;

    /// Releases the allocated memory starting at the specified address.
    fn free(&mut self, address: A)
        requires
            old(self).inv(),
            old(self).free_req(address),
        ensures
            final(self).inv(),
    ;
}

/// Start of the allocatable memory once the descriptors for `[start, end)` are reserved.
pub open spec fn avail_start(start: int, end: int, n: int) -> int {
    align_up_spec(start + (end - start) / n, n)
}

/// Number of allocatable pages in `[start, end)`.
pub open spec fn avail_pages(start: int, end: int, n: int) -> int {
    (end - avail_start(start, end, n)) / n
}

/// A frame allocator storing page state as a bitmap of page descriptors.
///
/// Page `i` starts at `base_addr + i * N`.
#[derive(Debug)]
pub struct BitmapAllocator<A, const N: u64> {
    descriptors: Vec<u8>,
    base_addr: A,
    num_pages: u64,
}

impl<A: PhysicalAddress, const N: u64> BitmapAllocator<A, N> {
    /// The page descriptors, page `i` first.
    pub closed spec fn pages(&self) -> Seq<u8> {
        self.descriptors@
    }

    /// Address of the first managed page.
    pub closed spec fn base(&self) -> u64 {
        self.base_addr.addr()
    }

    /// Internal consistency: one descriptor per page, descriptor values in range, and all
    /// page addresses representable.
    pub closed spec fn wf(&self) -> bool {
        &&& self.descriptors.len() == self.num_pages
        &&& valid_states(self.descriptors@)
        &&& is_power_of_two(N as nat)
        &&& self.base_addr.addr() + self.num_pages * N <= u64::MAX
        &&& A::representable((self.base_addr.addr() + self.num_pages * N) as u64)
    }

    /// A consistent allocator has pages whose size is a non-zero power of two.
    pub proof fn lemma_page_size(&self)
        requires
            self.wf(),
        ensures
            is_power_of_two(N as nat),
            N > 0,
    {
        let k = choose|k: nat| pow2(k) == N as nat;
        lemma_pow2_pos(k);
    }

    /// Address of page `i`.
    pub open spec fn page_addr(&self, i: int) -> int {
        self.base() + i * N
    }

    /// Creates a new bitmap allocator taking ownership of the memory delimited by addresses
    /// `start` and `end`, and allocating pages of size `N`.
    ///
    /// Returns an `AllocatorError` if any of the following conditions are not met:
    ///  - `N` is a non-zero power of two,
    ///  - `start` and `end` are page-aligned.
    pub fn init(start: A, end: A) -> (r: Result<Self, AllocatorError>)
        requires
            is_power_of_two(N as nat) && aligned(start.addr() as int, N as int) && aligned(
                end.addr() as int,
                N as int,
            ) ==> start.addr() <= end.addr(),
        ensures
            !is_power_of_two(N as nat) ==> r == Err::<Self, AllocatorError>(
                AllocatorError::InvalidPageSize,
            ),
            is_power_of_two(N as nat) && !(aligned(start.addr() as int, N as int) && aligned(
                end.addr() as int,
                N as int,
            )) ==> r == Err::<Self, AllocatorError>(AllocatorError::UnalignedAddress),
            is_power_of_two(N as nat) && aligned(start.addr() as int, N as int) && aligned(
                end.addr() as int,
                N as int,
            ) ==> r is Ok && r->Ok_0.wf() && r->Ok_0.base() == avail_start(
                start.addr() as int,
                end.addr() as int,
                N as int,
            ) && r->Ok_0.pages() == Seq::new(
                avail_pages(start.addr() as int, end.addr() as int, N as int) as nat,
                |i: int| PAGE_FREE,
            ),
    {
        if N == 0 || !u64_is_power_of_two(N) {
            proof {
                if N == 0 && is_power_of_two(N as nat) {
                    lemma_mask_ops(0, N);
                }
            }
            return Err(AllocatorError::InvalidPageSize);
        }
        let s = start.to_u64();
        let e = end.to_u64();
        if !is_aligned_u64(s, N) || !is_aligned_u64(e, N) {
            return Err(AllocatorError::UnalignedAddress);
        }
        proof {
            lemma_mask_ops(0, N);
        }
        let total_mem_size = e - s;
        let total_num_pages = total_mem_size / N;

        // A portion of memory starting from `start` is reserved to hold page descriptors
        // (one byte each). Memory available for allocation starts after it.
        let reserved_mem = total_num_pages;
        proof {
            vstd::arithmetic::div_mod::lemma_div_is_ordered_by_denominator(
                total_mem_size as int,
                1,
                N as int,
            );
            lemma_aligned_headroom_u64(e, N);
        }
        let unaligned_start = s + reserved_mem;
        let avail_mem_start = align_up_u64(unaligned_start, N);
        proof {
            lemma_align_up_props(unaligned_start as int, N as int);
            vstd::arithmetic::div_mod::lemma_fundamental_div_mod(e as int, N as int);
            vstd::arithmetic::div_mod::lemma_fundamental_div_mod(unaligned_start as int, N as int);
            if avail_mem_start > e {
                let q = unaligned_start as int / N as int;
                let qe = e as int / N as int;
                assert(avail_mem_start == N * q + N);
                assert(e == N * qe);
                assert(qe >= q + 1) by (nonlinear_arith)
                    requires N * qe >= N * q + 1, N > 0;
                assert(N * qe >= N * (q + 1)) by (nonlinear_arith)
                    requires qe >= q + 1, N > 0;
                assert(N * (q + 1) == N * q + N) by (nonlinear_arith);
                assert(false);
            }
            A::lemma_representable_below(avail_mem_start, e);
        }
        let avail_mem_size = e - avail_mem_start;
        let avail_pages = avail_mem_size / N;
        proof {
            vstd::arithmetic::div_mod::lemma_fundamental_div_mod(avail_mem_size as int, N as int);
            vstd::arithmetic::div_mod::lemma_mod_pos_bound(avail_mem_size as int, N as int);
            assert(avail_pages * N <= avail_mem_size) by (nonlinear_arith)
                requires
                    avail_mem_size == N * (avail_mem_size / N) + avail_mem_size % N,
                    avail_mem_size % N >= 0,
                    avail_pages == avail_mem_size / N;
            A::lemma_representable_below((avail_mem_start + avail_pages * N) as u64, e);
        }
        let base_addr = A::from_u64(avail_mem_start);

        // Initially mark all pages as free.
        let mut descriptors: Vec<u8> = Vec::new();
        let mut i: u64 = 0;
        while i < avail_pages
            invariant
                i <= avail_pages,
                descriptors@ == Seq::new(i as nat, |k: int| PAGE_FREE),
            decreases avail_pages - i,
        {
            descriptors.push(PAGE_FREE);
            i += 1;
            assert(descriptors@ =~= Seq::new(i as nat, |k: int| PAGE_FREE));
        }
        Ok(Self { descriptors, base_addr, num_pages: avail_pages })
    }

    /// Returns the number of allocatable pages.
    pub fn num_pages(&self) -> (r: u64)
        requires
            self.wf(),
        ensures
            r == self.pages().len(),
    {
        self.num_pages
    }

    /// Returns the address of the first allocatable page.
    pub fn base_addr(&self) -> (r: A)
        ensures
            r.addr() == self.base(),
    {
        self.base_addr
    }

    /// Returns the descriptor of page `i`: `0` when free, `1` for a page inside an
    /// allocated chunk, `2` for the last page of an allocated chunk.
    pub fn page_state(&self, i: usize) -> (r: u8)
        requires
            i < self.pages().len(),
        ensures
            r == self.pages()[i as int],
    {
        self.descriptors[i]
    }

    /// Whether the pages from the page of `address` up to the end of its chunk are all
    /// allocated, and `address` is not below the managed range.
    fn chunk_allocated_at(&self, address: A) -> (r: bool)
        requires
            self.wf(),
        ensures
            r == (address.addr() >= self.base() && chunk_tail_intact(
                self.pages(),
                (address.addr() - self.base()) / N as int,
            )),
    {
        let a = address.to_u64();
        let b = self.base_addr.to_u64();
        if a < b {
            return false;
        }
        proof {
            let k = choose|k: nat| pow2(k) == N as nat;
            lemma_pow2_pos(k);
        }
        let off = (a - b) / N;
        let ghost s = self.descriptors@;
        if off >= self.num_pages {
            return true;
        }
        let mut k: usize = off as usize;
        while k < self.descriptors.len()
            invariant
                off <= k <= s.len(),
                s == self.descriptors@,
                s == self.pages(),
                address.addr() >= self.base(),
                off as int == (address.addr() - self.base()) / N as int,
                first_last(s, off as int) == first_last(s, k as int),
                forall|m: int| off <= m < k ==> s[m] == PAGE_TAKEN,
            decreases s.len() - k,
        {
            let d = self.descriptors[k];
            if d == PAGE_LAST {
                return true;
            }
            if d != PAGE_TAKEN {
                proof {
                    lemma_first_last(s, k as int);
                }
                return false;
            }
            k += 1;
        }
        true
    }
}

impl<A: PhysicalAddress, const N: u64> FrameAllocator<A, N> for BitmapAllocator<A, N> {
    open spec fn inv(&self) -> bool {
        self.wf()
    }

    /// The address is not below the managed range, and the pages from it up to the end of
    /// its chunk are all allocated.
    open spec fn free_req(&self, address: A) -> bool {
        &&& address.addr() >= self.base()
        &&& chunk_tail_intact(self.pages(), (address.addr() - self.base()) / N as int)
    }

    fn can_free(&self, address: A) -> (r: bool) {
        self.chunk_allocated_at(address)
    }

    /// Allocates the first run of `count` free pages, marking all but its last page as
    /// inside a chunk and its last page as the chunk end.
    ///
    /// A request for zero pages returns `None` and changes nothing.
    fn allocate(&mut self, count: usize) -> (r: Option<A>)
        ensures
            final(self).base() == old(self).base(),
            count == 0 ==> r is None && final(self).pages() == old(self).pages(),
            count > 0 && r is None ==> no_run(old(self).pages(), count as int) && final(self).pages()
                == old(self).pages(),
            count > 0 && no_run(old(self).pages(), count as int) ==> r is None,
            count > 0 && r is Some ==> exists|i: int|
                #![trigger run_free(old(self).pages(), i, count as int)]
                run_free(old(self).pages(), i, count as int) && no_run_before(
                    old(self).pages(),
                    i,
                    count as int,
                ) && r->Some_0.addr() == old(self).page_addr(i) && final(self).pages()
                    == marked_run(old(self).pages(), i, count as int),
            count > 0 && r is Some ==> final(self).free_req(r->Some_0),
    {
        if count == 0 {
            return None;
        }
        match find_free_run(&self.descriptors, count) {
            None => None,
            Some(i) => {
                proof {
                    vstd::arithmetic::mul::lemma_mul_inequality(
                        i as int,
                        self.num_pages as int,
                        N as int,
                    );
                    A::lemma_representable_below(
                        (self.base_addr.addr() + i * N) as u64,
                        (self.base_addr.addr() + self.num_pages * N) as u64,
                    );
                    assert forall|k: int| 0 <= k < marked_run(self.descriptors@, i as int, count as int).len()
                        implies #[trigger] marked_run(self.descriptors@, i as int, count as int)[k] == 0
                        || marked_run(self.descriptors@, i as int, count as int)[k] == 1
                        || marked_run(self.descriptors@, i as int, count as int)[k] == 2 by {
                        assert(self.descriptors@[k] == 0 || self.descriptors@[k] == 1 || self.descriptors@[k] == 2);
                    }
                }
                mark_run(&mut self.descriptors, i, count);
                let a = self.base_addr.to_u64() + i as u64 * N;
                assert(run_free(old(self).pages(), i as int, count as int));
                proof {
                    let ii = i as int;
                    let n = N as int;
                    let k = choose|k: nat| pow2(k) == N as nat;
                    lemma_pow2_pos(k);
                    assert(n * ii == ii * n) by (nonlinear_arith);
                    vstd::arithmetic::div_mod::lemma_div_multiples_vanish(ii, n);
                    lemma_release_undoes_mark(old(self).descriptors@, ii, count as int);
                }
                Some(A::from_u64(a))
            },
        }
    }

    /// Releases the pages from the address's page through the end of its chunk (or through
    /// the last managed page if no chunk end follows).
    fn free(&mut self, address: A)
        ensures
            final(self).base() == old(self).base(),
            final(self).pages() == released_from(
                old(self).pages(),
                (address.addr() - old(self).base()) / N as int,
            ),
    {
        proof {
            lemma_mask_ops(0, N);
        }
        let offset = (address.to_u64() - self.base_addr.to_u64()) / N;
        if offset < self.num_pages {
            proof {
                assert forall|k: int| 0 <= k < released_from(self.descriptors@, offset as int).len()
                    implies #[trigger] released_from(self.descriptors@, offset as int)[k] == 0
                    || released_from(self.descriptors@, offset as int)[k] == 1
                    || released_from(self.descriptors@, offset as int)[k] == 2 by {
                    assert(self.descriptors@[k] == 0 || self.descriptors@[k] == 1 || self.descriptors@[k] == 2);
                }
            }
            release_from(&mut self.descriptors, offset as usize);
        } else {
            proof {
                assert(released_from(self.descriptors@, offset as int) =~= self.descriptors@);
            }
        }
    }
}

} // verus!
