//! Split virtqueues (legacy layout).
//!
//! The driver keeps the descriptor table and the available ring; the device reports finished
//! descriptor chains in the used ring. Free descriptors form a linked list through their
//! `next` fields, starting at `first_free`; a submitted request takes a chain from the head of
//! that list, and reclaiming a finished chain puts it back at the head.
use vstd::prelude::*;
use crate::mm::addr::DmaAddr;
use crate::drivers::virtio::VirtioDev;
use vstd::set_lib::{set_int_range, lemma_int_range, lemma_len_subset};
use crate::align::{is_power_of_two, align_up_spec, align_up_usize, lemma_pow2_exponent, lemma_align_up_props};

verus! {

/// Size in bytes of a descriptor.
pub const DESCRIPTOR_SIZE: usize = 16;
/// Size in bytes of the available ring header.
pub const AVAIL_HEADER_SIZE: usize = 4;
/// Size in bytes of the used ring header.
pub const USED_HEADER_SIZE: usize = 4;
/// Size in bytes of a used ring element.
pub const USED_ELEM_SIZE: usize = 8;

/// A buffer handed to the device.
#[derive(Debug, Clone, Copy, PartialEq, Eq, Structural)]
pub enum VirtqBuffer {
    /// The device reads from the buffer.
    Readable { addr: DmaAddr, len: usize },
    /// The device writes to the buffer.
    Writeable { addr: DmaAddr, len: usize },
}

/// A descriptor of the descriptor table.
#[derive(Debug, Clone, Copy, PartialEq, Eq, Structural)]
pub struct VirtqDescriptor {
    /// Address of the buffer.
    pub addr: DmaAddr,
    /// Length of the buffer.
    pub len: u32,
    /// `NEXT` and `WRITE` flags.
    pub flags: u16,
    /// Index of the next descriptor of the chain (or of the free list).
    pub next: u16,
}

impl VirtqDescriptor {
    /// This descriptor is followed by another via `next`.
    pub const NEXT: u16 = 1;
    /// Device may write to the buffer (device to driver).
    pub const WRITE: u16 = 2;
}

/// Header of the available ring.
#[derive(Debug, Clone, Copy, PartialEq, Eq, Structural)]
pub struct VirtqAvailable {
    /// Ring flags.
    pub flags: u16,
    /// Slot where the driver puts the next chain head.
    pub idx: u16,
}

/// Header of the used ring.
#[derive(Debug, Clone, Copy, PartialEq, Eq, Structural)]
pub struct VirtqUsed {
    /// Ring flags.
    pub flags: u16,
    /// Count of chains the device has finished with (wrapping).
    pub idx: u16,
}

/// An element of the used ring: a finished chain.
#[derive(Debug, Clone, Copy, PartialEq, Eq, Structural)]
pub struct VirtqUsedElem {
    /// Head of the finished chain.
    pub id: u32,
    /// Bytes written by the device.
    pub len: u32,
}

/// Whether descriptor flags have the `NEXT` bit.
pub open spec fn has_next(flags: u16) -> bool {
    flags & 1u16 == 1u16
}

/// Byte layout of a virtqueue in memory.
#[derive(Debug, Clone, Copy, PartialEq, Eq, Structural)]
pub struct VirtqLayout {
    /// Size of the descriptor table, at offset 0.
    pub desc_size: usize,
    /// Offset of the available ring (right after the descriptor table).
    pub avail_off: usize,
    /// Size of the available ring.
    pub avail_size: usize,
    /// Offset of the used ring: the first page boundary after the available ring.
    pub used_off: usize,
    /// Size of the used ring.
    pub used_size: usize,
    /// Total size.
    pub total: usize,
}

/// `c` is a descriptor chain headed by `h` in table `descr` of `size` entries: distinct
/// in-range descriptors linked by `next`, each but the last flagged `NEXT`.
pub open spec fn chain_ok(descr: Seq<VirtqDescriptor>, size: int, h: int, c: Seq<int>) -> bool {
    &&& c.len() >= 1
    &&& c[0] == h
    &&& c.no_duplicates()
    &&& forall|i: int| 0 <= i < c.len() ==> 0 <= #[trigger] c[i] < size
    &&& forall|i: int| 0 <= i < c.len() - 1 ==> descr[#[trigger] c[i]].next == c[i + 1] && has_next(descr[c[i]].flags)
    &&& !has_next(descr[c[c.len() - 1]].flags)
}

/// The free list `free` and the in-flight chains `chains` of a queue of `size` descriptors
/// `descr` are well linked and pairwise disjoint, as `owner` records.
spec fn links_ok_parts(
    size: int,
    descr: Seq<VirtqDescriptor>,
    ring_len: int,
    avail_idx: int,
    first_free: int,
    free_count: int,
    free: Seq<int>,
    chains: Map<int, Seq<int>>,
    owner: Seq<int>,
) -> bool {
    &&& size >= 1
    &&& descr.len() == size
    &&& ring_len == size
    &&& avail_idx < size
    &&& first_free < size
    &&& forall|i: int| 0 <= i < size ==> #[trigger] descr[i].next < size
    &&& free.len() == free_count
    &&& free_count > 0 ==> free[0] == first_free
    &&& free.no_duplicates()
    &&& forall|j: int| 0 <= j < free.len() ==> 0 <= #[trigger] free[j] < size
    &&& forall|j: int| 0 <= j < free.len() - 1 ==> descr[#[trigger] free[j]].next == free[j + 1]
    &&& owner.len() == size
    &&& forall|j: int| 0 <= j < free.len() ==> owner[#[trigger] free[j]] == -1
    &&& forall|h: int| #[trigger] chains.dom().contains(h) ==> chain_ok(descr, size, h, chains[h])
    &&& forall|h: int, i: int| chains.dom().contains(h) && 0 <= i < chains[h].len() ==> owner[#[trigger] chains[h][i]] == h
    &&& forall|h: int| #[trigger] chains.dom().contains(h) ==> 0 <= h
}

/// A split virtqueue.
pub struct Virtq {
    idx: u32,
    size: u16,
    phys: DmaAddr,
    descr: Vec<VirtqDescriptor>,
    avail: VirtqAvailable,
    avail_ring: Vec<u16>,
    /// Driver cursor into the used ring; advanced by [`Self::reclaim`].
    last_seen_used: u16,
    first_free: usize,
    free_count: usize,
    /// The free list, in order.
    free: Ghost<Seq<int>>,
    /// The chains handed to the device and not reclaimed yet, by head.
    chains: Ghost<Map<int, Seq<int>>>,
    /// For each descriptor: -1 if free, the head of its chain if in flight, or anything else.
    owner: Ghost<Seq<int>>,
    /// For each descriptor: whether it heads a chain in flight.
    busy: Vec<bool>,
}

impl Virtq {
    /// The queue is consistent: its free list and in-flight chains are well linked and
    /// pairwise disjoint, and the heads of the chains in flight are marked busy.
    pub closed spec fn wf(&self) -> bool {
        self.links_ok() && self.heads_marked()
    }

    /// The descriptors marked in `busy` are exactly the heads of the chains in flight.
    spec fn heads_marked(&self) -> bool {
        &&& self.busy@.len() == self.size as int
        &&& forall|h: int| 0 <= h < self.size ==> (#[trigger] self.busy@[h] <==> self.chains@.dom().contains(h))
    }

    /// The free list and the in-flight chains are well linked and pairwise disjoint.
    spec fn links_ok(&self) -> bool {
        links_ok_parts(
            self.size as int,
            self.descr@,
            self.avail_ring@.len() as int,
            self.avail.idx as int,
            self.first_free as int,
            self.free_count as int,
            self.free@,
            self.chains@,
            self.owner@,
        )
    }

    /// The queue index.
    pub closed spec fn index_spec(&self) -> u32 {
        self.idx
    }

    /// The number of descriptors.
    pub closed spec fn size_spec(&self) -> int {
        self.size as int
    }

    /// Physical address of the queue memory.
    pub closed spec fn phys_spec(&self) -> DmaAddr {
        self.phys
    }

    /// The descriptor table.
    pub closed spec fn descriptors_spec(&self) -> Seq<VirtqDescriptor> {
        self.descr@
    }

    /// The available ring header.
    pub closed spec fn avail_spec(&self) -> VirtqAvailable {
        self.avail
    }

    /// The available ring.
    pub closed spec fn avail_ring_spec(&self) -> Seq<u16> {
        self.avail_ring@
    }

    /// The driver's cursor into the used ring.
    pub closed spec fn last_seen_spec(&self) -> u16 {
        self.last_seen_used
    }

    /// The free descriptors, in the order they will be handed out.
    pub closed spec fn free_list(&self) -> Seq<int> {
        self.free@
    }

    /// The chains in flight, by head.
    pub closed spec fn in_flight(&self) -> Map<int, Seq<int>> {
        self.chains@
    }

    /// Computes the memory layout of a queue of `size` descriptors whose used ring is aligned
    /// to `page` bytes.
    pub fn layout(size: u16, page: usize) -> (r: VirtqLayout)
        requires
            is_power_of_two(page as nat),
            16 * size + 4 + 2 * (size + 1) + page - 1 + 4 + 8 * size + 2 <= usize::MAX,
        ensures
            r.desc_size == 16 * size,
            r.avail_off == r.desc_size,
            r.avail_size == 4 + 2 * (size + 1),
            r.used_off == align_up_spec(r.desc_size + r.avail_size, page as int),
            r.used_size == 4 + 8 * size + 2,
            r.total == r.used_off + r.used_size,
    {
        proof { lemma_pow2_exponent(page as u64); }
        let size = size as usize;
        let desc_size = DESCRIPTOR_SIZE * size;
        let avail_size = AVAIL_HEADER_SIZE + 2 * (size + 1);
        let used_size = USED_HEADER_SIZE + USED_ELEM_SIZE * size + 2;
        // Legacy virtio: the used ring starts at the next page boundary after the descriptor
        // table and the available ring.
        let used_off = align_up_usize(desc_size + avail_size, page);
        proof { lemma_align_up_props((desc_size + avail_size) as int, page as int); }
        VirtqLayout { desc_size, avail_off: desc_size, avail_size, used_off, used_size, total: used_off + used_size }
    }

    /// Creates queue `idx` of `size` descriptors over zeroed memory at `phys`, laid out as
    /// [`Self::layout`] says; every descriptor is free, chained in index order.
    pub fn new(idx: u32, size: u16, phys: DmaAddr) -> (r: Self)
        requires
            size >= 1,
        ensures
            r.wf(),
            r.index_spec() == idx,
            r.size_spec() == size,
            r.phys_spec() == phys,
            r.free_list() == Seq::new(size as nat, |i: int| i),
            r.in_flight() == Map::<int, Seq<int>>::empty(),
            r.avail_spec() == (VirtqAvailable { flags: 0, idx: 0 }),
            r.avail_ring_spec() == Seq::new(size as nat, |i: int| 0u16),
            r.last_seen_spec() == 0,
            forall|i: int| 0 <= i < size ==> (#[trigger] r.descriptors_spec()[i]).next == (if i + 1 < size { i + 1 } else { 0 })
                && r.descriptors_spec()[i].flags == 0 && r.descriptors_spec()[i].len == 0,
    {
        let n = size as usize;
        let mut descr: Vec<VirtqDescriptor> = Vec::new();
        let mut avail_ring: Vec<u16> = Vec::new();
        // Chain free descriptors together
        while descr.len() < n
            invariant
                n == size,
                descr@.len() <= n,
                avail_ring@.len() == descr@.len(),
                forall|i: int| 0 <= i < descr@.len() ==> (#[trigger] descr@[i]).next == (if i + 1 < n { i + 1 } else { 0 })
                    && descr@[i].flags == 0 && descr@[i].len == 0 && descr@[i].addr@ == 0,
                forall|i: int| 0 <= i < avail_ring@.len() ==> #[trigger] avail_ring@[i] == 0u16,
            decreases n - descr@.len(),
        {
            let i = descr.len();
            let next: u16 = if i + 1 < n { (i + 1) as u16 } else { 0 };
            descr.push(VirtqDescriptor { addr: DmaAddr::new_unchecked(0), len: 0, flags: 0, next });
            avail_ring.push(0);
        }
        let mut busy: Vec<bool> = Vec::new();
        while busy.len() < n
            invariant
                busy@.len() <= n,
                forall|i: int| 0 <= i < busy@.len() ==> !#[trigger] busy@[i],
            decreases n - busy@.len(),
        {
            busy.push(false);
        }
        let ghost free = Seq::new(size as nat, |i: int| i);
        let ghost owner = Seq::new(size as nat, |i: int| -1int);
        let r = Virtq {
            idx,
            size,
            phys,
            descr,
            avail: VirtqAvailable { flags: 0, idx: 0 },
            avail_ring,
            last_seen_used: 0,
            first_free: 0,
            free_count: n,
            free: Ghost(free),
            chains: Ghost(Map::empty()),
            owner: Ghost(owner),
            busy,
        };
        proof {
            assert(free.no_duplicates());
            assert(r.avail_ring_spec() == Seq::new(size as nat, |i: int| 0u16));
        }
        r
    }

    /// The page frame number of the queue memory.
    pub fn pfn(&self, page: usize) -> (r: u32)
        requires
            page > 0,
        ensures
            r == (self.phys_spec()@ / page) as u32,
    {
        (self.phys.as_usize() / page) as u32
    }

    /// The queue index, which the device is notified with.
    pub fn index(&self) -> (r: u32)
        ensures
            r == self.index_spec(),
    {
        self.idx
    }

    /// The number of free descriptors.
    pub fn free_count(&self) -> (r: usize)
        requires
            self.wf(),
        ensures
            r == self.free_list().len(),
    {
        self.free_count
    }

    /// The descriptor table, to be made visible to the device.
    pub fn descriptors(&self) -> (r: &[VirtqDescriptor])
        ensures
            r@ == self.descriptors_spec(),
    {
        self.descr.as_slice()
    }

    /// The available ring header, to be made visible to the device.
    pub fn avail(&self) -> (r: VirtqAvailable)
        ensures
            r == self.avail_spec(),
    {
        self.avail
    }

    /// The available ring, to be made visible to the device.
    pub fn avail_ring(&self) -> (r: &[u16])
        ensures
            r@ == self.avail_ring_spec(),
    {
        self.avail_ring.as_slice()
    }
}


/// Flags of a submitted descriptor: `NEXT` unless it ends the chain, `WRITE` if the device
/// writes the buffer.
pub open spec fn desc_flags(last: bool, write: bool) -> u16 {
    ((if !last { 1int } else { 0int }) + (if write { 2int } else { 0int })) as u16
}

/// The descriptor describing buffer `b`, keeping `next`.
pub open spec fn desc_for(b: VirtqBuffer, last: bool, next: u16) -> VirtqDescriptor {
    match b {
        VirtqBuffer::Readable { addr, len } => VirtqDescriptor { addr, len: len as u32, flags: desc_flags(last, false), next },
        VirtqBuffer::Writeable { addr, len } => VirtqDescriptor { addr, len: len as u32, flags: desc_flags(last, true), next },
    }
}

/// Distinct integers in `[0, size)` number at most `size`.
proof fn lemma_distinct_in_range_len(s: Seq<int>, size: int)
    requires
        s.no_duplicates(),
        size >= 0,
        forall|i: int| 0 <= i < s.len() ==> 0 <= #[trigger] s[i] < size,
    ensures
        s.len() <= size,
{
    s.unique_seq_to_set();
    lemma_int_range(0, size);
    assert(s.to_set().subset_of(set_int_range(0, size)));
    lemma_len_subset(s.to_set(), set_int_range(0, size));
}

/// The `NEXT` bit of the flags a submitted descriptor gets.
proof fn lemma_desc_flags(last: bool, write: bool)
    ensures
        has_next(desc_flags(last, write)) == !last,
{
    assert(1u16 & 1u16 == 1u16 && 3u16 & 1u16 == 1u16 && 0u16 & 1u16 == 0u16 && 2u16 & 1u16 == 0u16) by (bit_vector);
}

impl Virtq {
    /// Hands `buffers` to the device as one chain of descriptors taken from the head of the free
    /// list, publishes the chain head in the available ring, makes the rings visible to the
    /// device, and notifies it.
    pub fn submit<D: VirtioDev>(&mut self, dev: &D, buffers: &[VirtqBuffer])
        requires
            old(self).wf(),
            1 <= buffers@.len() <= old(self).free_list().len(),
        ensures
            final(self).wf(),
            ({
                let n = buffers@.len() as int;
                let chain = old(self).free_list().subrange(0, n);
                let head = chain[0];
                &&& final(self).free_list() == old(self).free_list().subrange(n, old(self).free_list().len() as int)
                &&& final(self).in_flight() == old(self).in_flight().insert(head, chain)
                &&& forall|j: int| 0 <= j < n ==> final(self).descriptors_spec()[#[trigger] chain[j]] == desc_for(
                    buffers@[j],
                    j == n - 1,
                    old(self).descriptors_spec()[chain[j]].next,
                )
                &&& forall|i: int| 0 <= i < old(self).size_spec() && !chain.contains(i)
                    ==> #[trigger] final(self).descriptors_spec()[i] == old(self).descriptors_spec()[i]
                &&& final(self).avail_ring_spec() == old(self).avail_ring_spec().update(old(self).avail_spec().idx as int, head as u16)
                &&& final(self).avail_spec().idx == (old(self).avail_spec().idx + 1) % old(self).size_spec()
                &&& final(self).avail_spec().flags == old(self).avail_spec().flags
            }),
            final(self).index_spec() == old(self).index_spec(),
            final(self).size_spec() == old(self).size_spec(),
            final(self).phys_spec() == old(self).phys_spec(),
            final(self).last_seen_spec() == old(self).last_seen_spec(),
            call_ensures(D::sync_queue, (dev, &*final(self)), ()),
            call_ensures(D::notify, (dev, old(self).index_spec()), ()),
    {
        let total_req = buffers.len();
        let ghost old_free = self.free@;
        let ghost old_descr = self.descr@;
        let ghost old_chains = self.chains@;
        let ghost old_owner = self.owner@;
        let ghost old_q = *self;
        let ghost n = total_req as int;
        let ghost chain = old_free.subrange(0, n);

        // Take `total_req` descriptors from the head of the free list. Their existing `next`
        // links become the buffer chain submitted to the device.
        let chain_head = self.first_free;
        let mut idx = chain_head;
        let mut t: usize = 1;
        while t < total_req
            invariant
                self.wf(),
                *self == old_q,
                self.free@ == old_free,
                self.free_count == old_free.len(),
                1 <= t <= total_req,
                total_req <= old_free.len(),
                idx == old_free[t - 1],
            decreases total_req - t,
        {
            idx = self.descr[idx].next as usize;
            t += 1;
        }
        let next_free = self.descr[idx].next as usize;
        proof {
            assert(chain.no_duplicates());
            assert forall|j: int| 0 <= j < chain.len() implies old_free.contains(#[trigger] chain[j]) by {
                assert(old_free[j] == chain[j]);
            }
        }

        // Prepare the descriptors
        let mut j: usize = 0;
        idx = chain_head;
        while j < total_req
            invariant
                self.descr@.len() == old_descr.len(),
                old_descr.len() == self.size,
                self.size >= 1,
                self.free_count == old_free.len(),
                self.avail_ring@.len() == self.size,
                self.avail.idx < self.size,
                self.avail == old_q.avail,
                self.avail_ring@ == old_q.avail_ring@,
                self.idx == old_q.idx,
                self.size == old_q.size,
                self.phys == old_q.phys,
                self.last_seen_used == old_q.last_seen_used,
                self.free@ == old_free,
                self.chains@ == old_chains,
                self.owner@ == old_owner,
                self.busy@ == old_q.busy@,
                self.first_free == chain_head,
                forall|i: int| 0 <= i < self.size ==> #[trigger] old_descr[i].next < self.size,
                total_req == buffers@.len(),
                n == total_req,
                total_req <= old_free.len(),
                chain == old_free.subrange(0, n),
                old_free.no_duplicates(),
                forall|k: int| 0 <= k < old_free.len() ==> 0 <= #[trigger] old_free[k] < self.size,
                forall|k: int| 0 <= k < old_free.len() - 1 ==> old_descr[#[trigger] old_free[k]].next == old_free[k + 1],
                next_free == old_descr[old_free[n - 1]].next,
                j <= total_req,
                j < total_req ==> idx == chain[j as int],
                j == total_req ==> idx == next_free,
                forall|k: int| 0 <= k < j ==> self.descr@[#[trigger] chain[k]] == desc_for(buffers@[k], k == n - 1, old_descr[chain[k]].next),
                forall|i: int| 0 <= i < self.size && !chain.subrange(0, j as int).contains(i) ==> #[trigger] self.descr@[i] == old_descr[i],
            decreases total_req - j,
        {
            let ghost before = self.descr@;
            let last = j + 1 == total_req;
            let (addr, len, write) = match buffers[j] {
                VirtqBuffer::Readable { addr, len } => (addr, len, false),
                VirtqBuffer::Writeable { addr, len } => (addr, len, true),
            };
            let flags: u16 = (if !last { VirtqDescriptor::NEXT } else { 0 }) + (if write { VirtqDescriptor::WRITE } else { 0 });
            let next = self.descr[idx].next;
            proof {
                assert(!chain.subrange(0, j as int).contains(chain[j as int])) by {
                    if chain.subrange(0, j as int).contains(chain[j as int]) {
                        let k = choose|k: int| 0 <= k < j && chain.subrange(0, j as int)[k] == chain[j as int];
                        assert(chain[k] == chain[j as int]);
                    }
                }
                assert(next == old_descr[chain[j as int]].next);
            }
            self.descr.set(idx, VirtqDescriptor { addr, len: len as u32, flags, next });
            proof {
                assert(self.descr@[chain[j as int]] == desc_for(buffers@[j as int], j == n - 1, old_descr[chain[j as int]].next));
                assert forall|k: int| 0 <= k < j + 1 implies self.descr@[#[trigger] chain[k]] == desc_for(buffers@[k], k == n - 1, old_descr[chain[k]].next) by {
                    if k < j {
                        assert(chain[k] != chain[j as int]);
                    }
                }
                assert forall|i: int| 0 <= i < self.size && !chain.subrange(0, j + 1).contains(i) implies #[trigger] self.descr@[i] == old_descr[i] by {
                    assert(chain.subrange(0, j + 1)[j as int] == chain[j as int]);
                    if chain.subrange(0, j as int).contains(i) {
                        let k = choose|k: int| 0 <= k < j && chain.subrange(0, j as int)[k] == i;
                        assert(chain.subrange(0, j + 1)[k] == i);
                    }
                }
                if j + 1 < total_req {
                    assert(old_descr[old_free[j as int]].next == old_free[j + 1]);
                }
            }
            idx = next as usize;
            j += 1;
        }
        proof {
            assert(chain.subrange(0, n) == chain);
        }

        self.first_free = next_free;
        self.free_count = self.free_count - total_req;

        // Publish the chain head
        let slot = self.avail.idx as usize;
        self.avail_ring.set(slot, chain_head as u16);
        self.avail.idx = (self.avail.idx + 1) % self.size;
        self.busy.set(chain_head, true);

        let ghost head = chain_head as int;
        proof {
            assert(chain[0] == old_free[0]);
            assert(chain[0] == head);
            self.free@ = old_free.subrange(n, old_free.len() as int);
            self.chains@ = old_chains.insert(head, chain);
            self.owner@ = Seq::new(self.size as nat, |d: int| if chain.contains(d) { chain[0] } else { old_owner[d] });
            lemma_submit_wf(
                self.size as int,
                self.descr@,
                self.avail_ring@.len() as int,
                self.avail.idx as int,
                self.first_free as int,
                self.free_count as int,
                self.free@,
                self.chains@,
                self.owner@,
                old_descr, old_free, old_chains, old_owner, chain, buffers@, n);
            assert(self.heads_marked());
        }
        dev.sync_queue(self);
        dev.notify(self.idx);
    }
}

/// The queue stays consistent after a chain of `n` descriptors was taken from the head of
/// the free list and filled for `buffers`.
#[verifier::spinoff_prover]
#[verifier::rlimit(40)]
proof fn lemma_submit_wf(
    size: int,
    new_descr: Seq<VirtqDescriptor>,
    ring_len: int,
    avail_idx: int,
    first_free: int,
    free_count: int,
    new_free: Seq<int>,
    new_chains: Map<int, Seq<int>>,
    new_owner: Seq<int>,
    old_descr: Seq<VirtqDescriptor>,
    old_free: Seq<int>,
    old_chains: Map<int, Seq<int>>,
    old_owner: Seq<int>,
    chain: Seq<int>,
    buffers: Seq<VirtqBuffer>,
    n: int,
)
    requires
        size >= 1,
        old_descr.len() == size,
        new_descr.len() == size,
        ring_len == size,
        avail_idx < size,
        first_free < size,
        forall|i: int| 0 <= i < size ==> #[trigger] old_descr[i].next < size,
        1 <= n <= old_free.len(),
        old_free.no_duplicates(),
        forall|j: int| 0 <= j < old_free.len() ==> 0 <= #[trigger] old_free[j] < size,
        forall|j: int| 0 <= j < old_free.len() - 1 ==> old_descr[#[trigger] old_free[j]].next == old_free[j + 1],
        old_owner.len() == size,
        forall|j: int| 0 <= j < old_free.len() ==> old_owner[#[trigger] old_free[j]] == -1,
        forall|h: int| #[trigger] old_chains.dom().contains(h) ==> chain_ok(old_descr, size, h, old_chains[h]),
        forall|h: int, i: int| old_chains.dom().contains(h) && 0 <= i < old_chains[h].len() ==> old_owner[#[trigger] old_chains[h][i]] == h,
        forall|h: int| #[trigger] old_chains.dom().contains(h) ==> 0 <= h,
        chain == old_free.subrange(0, n),
        buffers.len() == n,
        forall|j: int| 0 <= j < n ==> new_descr[#[trigger] chain[j]] == desc_for(buffers[j], j == n - 1, old_descr[chain[j]].next),
        forall|i: int| 0 <= i < size && !chain.contains(i) ==> #[trigger] new_descr[i] == old_descr[i],
        n < old_free.len() ==> first_free == old_free[n],
        first_free == old_descr[old_free[n - 1]].next,
        free_count == old_free.len() - n,
        new_free == old_free.subrange(n, old_free.len() as int),
        new_chains == old_chains.insert(chain[0], chain),
        new_owner == Seq::new(size as nat, |d: int| if chain.contains(d) { chain[0] } else { old_owner[d] }),
    ensures
        links_ok_parts(size, new_descr, ring_len, avail_idx, first_free, free_count, new_free, new_chains, new_owner),
{
    let head = chain[0];
    // Every descriptor keeps its `next` link.
    assert forall|i: int| 0 <= i < size implies #[trigger] new_descr[i].next == old_descr[i].next by {
        if chain.contains(i) {
            let j = choose|j: int| 0 <= j < n && chain[j] == i;
            match buffers[j] {
                VirtqBuffer::Readable { .. } => {},
                VirtqBuffer::Writeable { .. } => {},
            }
        }
    }
    // The taken chain held free descriptors.
    assert forall|j: int| 0 <= j < n implies old_owner[#[trigger] chain[j]] == -1 by {
        assert(chain[j] == old_free[j]);
    }
    assert(!old_chains.dom().contains(head)) by {
        if old_chains.dom().contains(head) {
            assert(old_chains[head][0] == head);
            assert(old_owner[old_chains[head][0]] == head);
            assert(old_owner[chain[0]] == -1);
        }
    }
    // The remaining free list.
    let free = new_free;
    assert forall|j: int| 0 <= j < free.len() implies !chain.contains(#[trigger] free[j]) by {
        assert(free[j] == old_free[n + j]);
        if chain.contains(free[j]) {
            let k = choose|k: int| 0 <= k < n && chain[k] == free[j];
            assert(old_free[k] == old_free[n + j]);
        }
    }
    assert forall|j: int| 0 <= j < free.len() - 1 implies new_descr[#[trigger] free[j]].next == free[j + 1] by {
        assert(free[j] == old_free[n + j]);
        assert(free[j + 1] == old_free[n + j + 1]);
    }
    assert forall|j: int| 0 <= j < free.len() implies new_owner[#[trigger] free[j]] == -1 by {
        assert(free[j] == old_free[n + j]);
    }
    // The new chain.
    lemma_desc_flags(true, true);
    lemma_desc_flags(true, false);
    lemma_desc_flags(false, true);
    lemma_desc_flags(false, false);
    assert forall|i: int| 0 <= i < chain.len() - 1 implies new_descr[#[trigger] chain[i]].next == chain[i + 1] && has_next(new_descr[chain[i]].flags) by {
        assert(chain[i] == old_free[i]);
        assert(chain[i + 1] == old_free[i + 1]);
        match buffers[i] {
            VirtqBuffer::Readable { .. } => {},
            VirtqBuffer::Writeable { .. } => {},
        }
    }
    assert(!has_next(new_descr[chain[n - 1]].flags)) by {
        match buffers[n - 1] {
            VirtqBuffer::Readable { .. } => {},
            VirtqBuffer::Writeable { .. } => {},
        }
    }
    assert forall|i: int| 0 <= i < chain.len() implies 0 <= #[trigger] chain[i] < size by {
        assert(chain[i] == old_free[i]);
    }
    assert(chain_ok(new_descr, size, head, chain));
    // The chains already in flight are untouched.
    assert forall|h: int| #[trigger] new_chains.dom().contains(h) implies chain_ok(new_descr, size, h, new_chains[h]) by {
        if h != head {
            let c = old_chains[h];
            assert forall|i: int| 0 <= i < c.len() implies !chain.contains(#[trigger] c[i]) by {
                assert(old_owner[c[i]] == h);
                if chain.contains(c[i]) {
                    let k = choose|k: int| 0 <= k < n && chain[k] == c[i];
                    assert(old_owner[chain[k]] == -1);
                }
            }
            assert forall|i: int| 0 <= i < c.len() implies #[trigger] new_descr[c[i]] == old_descr[c[i]] by {
                assert(chain_ok(old_descr, size, h, c));
            }
            assert(new_descr[c[c.len() - 1]] == old_descr[c[c.len() - 1]]);
        }
    }
    assert forall|h: int, i: int| new_chains.dom().contains(h) && 0 <= i < new_chains[h].len() implies new_owner[#[trigger] new_chains[h][i]] == h by {
        if h != head {
            let c = old_chains[h];
            assert(old_owner[c[i]] == h);
            assert(chain_ok(old_descr, size, h, c));
            if chain.contains(c[i]) {
                let k = choose|k: int| 0 <= k < n && chain[k] == c[i];
                assert(old_owner[chain[k]] == -1);
            }
        } else {
            assert(chain.contains(chain[i]));
        }
    }
    assert(free.no_duplicates());
}


/// The chain heads that the device reports as finished between the driver's cursor `last` and
/// the device's used index `used_idx` (both counting modulo 2^16): the `id` of each used-ring
/// slot in turn.
pub open spec fn reported_heads(used: Seq<VirtqUsedElem>, last: u16, used_idx: u16, size: int) -> Seq<int> {
    Seq::new(((used_idx - last) % 0x1_0000) as nat, |t: int| used[((last + t) % 0x1_0000) % size].id as int)
}

/// The free list after reclaiming the chains headed by `hs`, in order: each reclaimed chain is
/// put in front of the list.
pub open spec fn free_after(free: Seq<int>, chains: Map<int, Seq<int>>, hs: Seq<int>) -> Seq<int>
    decreases hs.len(),
{
    if hs.len() == 0 {
        free
    } else {
        chains[hs.last()] + free_after(free, chains, hs.drop_last())
    }
}

/// Counting from `last` modulo 2^16, the cursor reaches `used_idx` after exactly
/// `(used_idx - last) mod 2^16` steps, and not before.
proof fn lemma_cursor(last: u16, used_idx: u16, t: int)
    requires
        0 <= t <= (used_idx - last) % 0x1_0000,
    ensures
        ((last + t) % 0x1_0000 == used_idx) <==> t == (used_idx - last) % 0x1_0000,
{
}

impl Virtq {
    /// Returns the chains that the device has finished with to the free list.
    ///
    /// `used_idx` and `used` are the device's used index and used ring. Each slot between the
    /// driver's cursor and `used_idx` names the head of a chain in flight, each chain once; the
    /// chains are put back in front of the free list in turn, and the cursor reaches
    /// `used_idx`. [`Self::reported_heads_valid`] tests the condition on the slots.
    pub fn reclaim(&mut self, used_idx: u16, used: &[VirtqUsedElem])
        requires
            old(self).wf(),
            used@.len() == old(self).size_spec(),
            reported_heads(used@, old(self).last_seen_spec(), used_idx, old(self).size_spec()).no_duplicates(),
            forall|t: int| 0 <= t < reported_heads(used@, old(self).last_seen_spec(), used_idx, old(self).size_spec()).len()
                ==> old(self).in_flight().dom().contains(#[trigger] reported_heads(used@, old(self).last_seen_spec(), used_idx, old(self).size_spec())[t]),
        ensures
            final(self).wf(),
            final(self).last_seen_spec() == used_idx,
            ({
                let hs = reported_heads(used@, old(self).last_seen_spec(), used_idx, old(self).size_spec());
                &&& final(self).free_list() == free_after(old(self).free_list(), old(self).in_flight(), hs)
                &&& final(self).in_flight() == old(self).in_flight().remove_keys(hs.to_set())
            }),
            forall|i: int| 0 <= i < old(self).size_spec() ==> {
                &&& (#[trigger] final(self).descriptors_spec()[i]).addr == old(self).descriptors_spec()[i].addr
                &&& final(self).descriptors_spec()[i].len == old(self).descriptors_spec()[i].len
                &&& final(self).descriptors_spec()[i].flags == old(self).descriptors_spec()[i].flags
            },
            final(self).index_spec() == old(self).index_spec(),
            final(self).size_spec() == old(self).size_spec(),
            final(self).phys_spec() == old(self).phys_spec(),
            final(self).avail_spec() == old(self).avail_spec(),
            final(self).avail_ring_spec() == old(self).avail_ring_spec(),
    {
        let ghost old_q = *self;
        let ghost old_free = self.free@;
        let ghost old_chains = self.chains@;
        let ghost old_last = self.last_seen_used;
        let ghost size = self.size as int;
        let ghost hs = reported_heads(used@, old_last, used_idx, size);
        let qsize = self.size as usize;
        let ghost mut t: int = 0;
        proof {
            assert(hs.subrange(0, 0) == Seq::<int>::empty());
            assert(old_chains.remove_keys(Seq::<int>::empty().to_set()) == old_chains);
        }
        while self.last_seen_used != used_idx
            invariant
                self.wf(),
                used@.len() == size,
                size == self.size as int,
                qsize == size,
                qsize >= 1,
                self.size == old_q.size,
                self.idx == old_q.idx,
                self.phys == old_q.phys,
                self.avail == old_q.avail,
                self.avail_ring@ == old_q.avail_ring@,
                forall|i: int| 0 <= i < size ==> {
                    &&& (#[trigger] self.descr@[i]).addr == old_q.descr@[i].addr
                    &&& self.descr@[i].len == old_q.descr@[i].len
                    &&& self.descr@[i].flags == old_q.descr@[i].flags
                },
                hs == reported_heads(used@, old_last, used_idx, size),
                hs.no_duplicates(),
                forall|k: int| 0 <= k < hs.len() ==> old_chains.dom().contains(#[trigger] hs[k]),
                0 <= t <= hs.len(),
                self.last_seen_used == (old_last + t) % 0x1_0000,
                self.free@ == free_after(old_free, old_chains, hs.subrange(0, t)),
                self.chains@ == old_chains.remove_keys(hs.subrange(0, t).to_set()),
            decreases hs.len() - t,
        {
            proof { lemma_cursor(old_last, used_idx, t); }
            let chain_head = used[self.last_seen_used as usize % qsize].id as usize;
            let ghost h = hs[t];
            proof {
                assert(chain_head == h);
                assert(!hs.subrange(0, t).contains(h)) by {
                    if hs.subrange(0, t).contains(h) {
                        let k = choose|k: int| 0 <= k < t && hs.subrange(0, t)[k] == h;
                        assert(hs[k] == hs[t]);
                    }
                }
                assert(self.chains@.dom().contains(h));
            }
            let ghost c = self.chains@[h];
            proof {
                assert(chain_ok(self.descr@, size, h, c));
                lemma_reclaim_len(self, c);
            }

            // Walk the finished chain to its last descriptor, counting its length.
            let mut idx = chain_head;
            let mut chain_len: usize = 1;
            proof {
                lemma_next_bit();
            }
            while self.descr[idx].flags & VirtqDescriptor::NEXT != 0
                invariant
                    self.descr@.len() == size,
                    chain_ok(self.descr@, size, h, c),
                    c.len() <= size,
                    size <= 0xffff,
                    1 <= chain_len <= c.len(),
                    idx == c[chain_len - 1],
                    forall|f: u16| (f & 1u16 != 0) == has_next(f),
                decreases c.len() - chain_len,
            {
                idx = self.descr[idx].next as usize;
                chain_len += 1;
            }
            proof {
                assert(chain_len == c.len());
                lemma_reclaim_len(self, c);
            }
            // Link the chain's last descriptor to the free list; the chain head becomes the new
            // free-list head.
            let mut tail = self.descr[idx];
            tail.next = self.first_free as u16;
            let ghost before = *self;
            self.descr.set(idx, tail);
            self.first_free = chain_head;
            self.free_count = self.free_count + chain_len;
            self.last_seen_used = self.last_seen_used.wrapping_add(1);
            self.busy.set(chain_head, false);
            proof {
                self.free@ = c + before.free@;
                self.chains@ = before.chains@.remove(h);
                self.owner@ = Seq::new(size as nat, |d: int| if c.contains(d) { -1int } else { before.owner@[d] });
                lemma_reclaim_wf(self, &before, h, c);
                assert(self.heads_marked());
                assert(hs.subrange(0, t + 1).drop_last() == hs.subrange(0, t));
                assert(hs.subrange(0, t + 1).last() == h);
                assert(hs.subrange(0, t + 1) == hs.subrange(0, t).push(h));
                assert(hs.subrange(0, t + 1).to_set() =~= hs.subrange(0, t).to_set().insert(h)) by {
                    hs.subrange(0, t).lemma_push_to_set_commute(h);
                }
                assert(self.chains@ =~= old_chains.remove_keys(hs.subrange(0, t + 1).to_set()));
                assert(old_chains[h] == c);
                t = t + 1;
            }
        }
        proof {
            lemma_cursor(old_last, used_idx, t);
            assert(hs.subrange(0, t) == hs);
        }
    }
}

impl Virtq {
    /// Whether descriptor `head` heads a chain in flight.
    pub fn is_in_flight(&self, head: usize) -> (r: bool)
        requires
            self.wf(),
        ensures
            r == self.in_flight().dom().contains(head as int),
            r ==> head < self.size_spec(),
    {
        if head < self.busy.len() {
            self.busy[head]
        } else {
            proof {
                let h = head as int;
                if self.chains@.dom().contains(h) {
                    assert(chain_ok(self.descr@, self.size as int, h, self.chains@[h]));
                    assert(self.chains@[h][0] == h);
                }
            }
            false
        }
    }

    /// Whether the chain heads that the device reports in `used` up to `used_idx` are distinct
    /// chains in flight, as [`Self::reclaim`] requires of them.
    pub fn reported_heads_valid(&self, used_idx: u16, used: &[VirtqUsedElem]) -> (r: bool)
        requires
            self.wf(),
            used@.len() == self.size_spec(),
        ensures
            r == (reported_heads(used@, self.last_seen_spec(), used_idx, self.size_spec()).no_duplicates()
                && forall|t: int| 0 <= t < reported_heads(used@, self.last_seen_spec(), used_idx, self.size_spec()).len()
                ==> self.in_flight().dom().contains(#[trigger] reported_heads(used@, self.last_seen_spec(), used_idx, self.size_spec())[t])),
    {
        let ghost last = self.last_seen_used;
        let ghost hs = reported_heads(used@, last, used_idx, self.size as int);
        let qsize = self.size as usize;
        let mut seen: Vec<bool> = Vec::new();
        while seen.len() < qsize
            invariant
                seen@.len() <= qsize,
                forall|x: int| 0 <= x < seen@.len() ==> !#[trigger] seen@[x],
            decreases qsize - seen@.len(),
        {
            seen.push(false);
        }
        let mut cur = self.last_seen_used;
        let ghost mut t: int = 0;
        while cur != used_idx
            invariant
                self.wf(),
                used@.len() == self.size,
                qsize == self.size,
                qsize >= 1,
                last == self.last_seen_used,
                hs == reported_heads(used@, last, used_idx, self.size as int),
                0 <= t <= hs.len(),
                cur == (last + t) % 0x1_0000,
                seen@.len() == qsize,
                forall|x: int| 0 <= x < qsize ==> (#[trigger] seen@[x] <==> hs.subrange(0, t).contains(x)),
                hs.subrange(0, t).no_duplicates(),
                forall|k: int| 0 <= k < t ==> self.chains@.dom().contains(#[trigger] hs[k]),
            decreases hs.len() - t,
        {
            proof {
                lemma_cursor(last, used_idx, t);
                assert(self.size >= 1);
            }
            let id = used[cur as usize % qsize].id as usize;
            proof {
                assert(id == hs[t]);
            }
            if !self.is_in_flight(id) {
                return false;
            }
            if seen[id] {
                proof {
                    let k = choose|k: int| 0 <= k < t && hs.subrange(0, t)[k] == id;
                    assert(hs[k] == hs[t]);
                }
                return false;
            }
            seen.set(id, true);
            cur = cur.wrapping_add(1);
            proof {
                let old_pre = hs.subrange(0, t);
                let new_pre = hs.subrange(0, t + 1);
                assert(new_pre =~= old_pre.push(hs[t]));
                assert forall|x: int| 0 <= x < qsize implies (#[trigger] seen@[x] <==> new_pre.contains(x)) by {
                    if x == id {
                        assert(new_pre[t] == hs[t]);
                    } else if new_pre.contains(x) {
                        let k = choose|k: int| 0 <= k < t + 1 && new_pre[k] == x;
                        assert(old_pre[k] == x);
                    } else if old_pre.contains(x) {
                        let k = choose|k: int| 0 <= k < t && old_pre[k] == x;
                        assert(new_pre[k] == x);
                    }
                }
                assert forall|i: int, j: int| 0 <= i < j < t + 1 implies new_pre[i] != new_pre[j] by {
                    if j == t {
                        assert(old_pre[i] == hs[i]);
                        assert(old_pre.contains(hs[i]));
                    } else {
                        assert(old_pre[i] != old_pre[j]);
                    }
                }
                t = t + 1;
            }
        }
        proof {
            lemma_cursor(last, used_idx, t);
            assert(hs.subrange(0, t) == hs);
        }
        true
    }
}

/// For descriptor flags, testing the `NEXT` bit against zero is `has_next`.
proof fn lemma_next_bit()
    ensures
        forall|f: u16| (f & 1u16 != 0) == has_next(f),
{
    assert forall|f: u16| (f & 1u16 != 0) == (f & 1u16 == 1u16) by {
        assert((f & 1u16 != 0) == (f & 1u16 == 1u16)) by (bit_vector);
    }
}

/// A chain in flight and the free list together hold distinct descriptors, so their lengths
/// add up to at most the queue size.
proof fn lemma_reclaim_len(q: &Virtq, c: Seq<int>)
    requires
        q.wf(),
        exists|h: int| q.chains@.dom().contains(h) && q.chains@[h] == c,
    ensures
        c.len() + q.free_count <= q.size,
        (c + q.free@).no_duplicates(),
{
    let h = choose|h: int| q.chains@.dom().contains(h) && q.chains@[h] == c;
    let s = c + q.free@;
    let size = q.size as int;
    assert(chain_ok(q.descr@, size, h, c));
    assert forall|i: int, j: int| 0 <= i < s.len() && 0 <= j < s.len() && i != j implies s[i] != s[j] by {
        if i < c.len() && j >= c.len() {
            assert(q.owner@[c[i]] == h);
            assert(q.owner@[q.free@[j - c.len()]] == -1);
        } else if i >= c.len() && j < c.len() {
            assert(q.owner@[c[j]] == h);
            assert(q.owner@[q.free@[i - c.len()]] == -1);
        } else if i >= c.len() && j >= c.len() {
            assert(q.free@[i - c.len()] != q.free@[j - c.len()]);
        }
    }
    assert forall|i: int| 0 <= i < s.len() implies 0 <= #[trigger] s[i] < size by {
        if i >= c.len() {
            assert(s[i] == q.free@[i - c.len()]);
        }
    }
    lemma_distinct_in_range_len(s, size);
}

/// The queue stays consistent after the chain `c` headed by `h` was put in front of the free
/// list.
proof fn lemma_reclaim_wf(q: &Virtq, before: &Virtq, h: int, c: Seq<int>)
    requires
        before.wf(),
        before.chains@.dom().contains(h),
        c == before.chains@[h],
        (c + before.free@).no_duplicates(),
        q.size == before.size,
        q.avail == before.avail,
        q.avail_ring@ == before.avail_ring@,
        q.descr@ == before.descr@.update(c[c.len() - 1], VirtqDescriptor { next: before.first_free as u16, ..before.descr@[c[c.len() - 1]] }),
        q.first_free == h,
        q.free_count == before.free_count + c.len(),
        q.free@ == c + before.free@,
        q.chains@ == before.chains@.remove(h),
        q.owner@ == Seq::new(q.size as nat, |d: int| if c.contains(d) { -1int } else { before.owner@[d] }),
    ensures
        q.links_ok(),
{
    let size = q.size as int;
    let tail = c[c.len() - 1];
    assert(chain_ok(before.descr@, size, h, c));
    assert forall|i: int| 0 <= i < size implies #[trigger] q.descr@[i].next < size by {
        if i != tail {
            assert(q.descr@[i] == before.descr@[i]);
        }
    }
    let free = q.free@;
    assert forall|j: int| 0 <= j < free.len() implies 0 <= #[trigger] free[j] < size by {
        if j >= c.len() {
            assert(free[j] == before.free@[j - c.len()]);
        }
    }
    assert forall|j: int| 0 <= j < free.len() - 1 implies q.descr@[#[trigger] free[j]].next == free[j + 1] by {
        if j < c.len() - 1 {
            assert(c[j] != tail);
        } else if j == c.len() - 1 {
            assert(free[j] == tail);
            assert(free[j + 1] == before.free@[0]);
        } else {
            let f = before.free@[j - c.len()];
            assert(free[j] == f);
            assert(free[j + 1] == before.free@[j + 1 - c.len()]);
            assert(before.owner@[f] == -1);
            assert(before.owner@[tail] == h);
            assert(f != tail);
        }
    }
    assert forall|j: int| 0 <= j < free.len() implies q.owner@[#[trigger] free[j]] == -1 by {
        if j < c.len() {
            assert(c.contains(free[j]));
        } else {
            let f = before.free@[j - c.len()];
            assert(free[j] == f);
        }
    }
    assert forall|h2: int| #[trigger] q.chains@.dom().contains(h2) implies chain_ok(q.descr@, size, h2, q.chains@[h2]) by {
        let c2 = before.chains@[h2];
        assert(chain_ok(before.descr@, size, h2, c2));
        assert forall|i: int| 0 <= i < c2.len() implies #[trigger] q.descr@[c2[i]] == before.descr@[c2[i]] by {
            assert(before.owner@[c2[i]] == h2);
            assert(before.owner@[tail] == h);
        }
        assert(q.descr@[c2[c2.len() - 1]] == before.descr@[c2[c2.len() - 1]]);
    }
    assert forall|h2: int, i: int| q.chains@.dom().contains(h2) && 0 <= i < q.chains@[h2].len() implies q.owner@[#[trigger] q.chains@[h2][i]] == h2 by {
        let c2 = before.chains@[h2];
        assert(before.owner@[c2[i]] == h2);
        if c.contains(c2[i]) {
            let k = choose|k: int| 0 <= k < c.len() && c[k] == c2[i];
            assert(before.owner@[c[k]] == h);
        }
    }
}


/// Reclaiming a chain right after it was submitted gives back the free list and the set of
/// chains in flight from before the submission: the chain taken from the head of the free
/// list returns to the head, in the same order.
pub proof fn lemma_reclaim_undoes_submit(free: Seq<int>, chains: Map<int, Seq<int>>, n: int)
    requires
        1 <= n <= free.len(),
        !chains.dom().contains(free[0]),
    ensures
        ({
            let chain = free.subrange(0, n);
            let after_submit = chains.insert(free[0], chain);
            &&& free_after(free.subrange(n, free.len() as int), after_submit, seq![free[0]]) == free
            &&& after_submit.remove_keys(seq![free[0]].to_set()) == chains
        }),
{
    let chain = free.subrange(0, n);
    let after_submit = chains.insert(free[0], chain);
    let hs = seq![free[0]];
    assert(hs.drop_last() == Seq::<int>::empty());
    assert(free_after(free.subrange(n, free.len() as int), after_submit, hs.drop_last()) == free.subrange(n, free.len() as int));
    assert(chain + free.subrange(n, free.len() as int) == free);
    assert(hs.to_set() =~= set![free[0]]) by {
        assert(hs.to_set().contains(free[0])) by {
            assert(hs[0] == free[0]);
        }
    }
    assert(after_submit.remove_keys(hs.to_set()) =~= chains);
}

} // verus!
