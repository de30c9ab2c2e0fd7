//! One level of a page-table walk: what mapping a page writes into an entry, and what
//! translating an address reads from it.
//!
//! The tables below the root live in physical memory, which only the kernel can reach;
//! the kernel walks from table to table and calls these steps at each level.
use vstd::prelude::*;
use vstd::arithmetic::power2::{pow2, lemma2_to64, lemma2_to64_rest, lemma_pow2_pos};
use vstd::bits::lemma_low_bits_mask_values;
use crate::bits::{field, lemma_u64_field};
use crate::align::{Align, align_up_spec, align_down_spec, is_power_of_two};
use crate::riscv::addr::{PhysAddr, VirtAddr, PHYS_ADDR_MAX};
use crate::riscv::mmu::{Entry, EntryFlags, MapError, has_flags};

verus! {

/// The entry's bits say that it maps a page: it is readable, writable or executable.
pub open spec fn is_leaf_bits(b: u64) -> bool {
    has_flags(b, EntryFlags::READ) || has_flags(b, EntryFlags::WRITE) || has_flags(b, EntryFlags::EXEC)
}

/// Flags as a leaf keeps them: the read, write, execute, user and global bits.
pub open spec fn normalized_flags(flags: u64) -> u64 {
    flags & EntryFlags::RWXUG
}

/// Raw bits of an entry that points to the next-level table at the page-aligned address
/// `table`.
pub open spec fn table_entry_bits(table: int) -> int {
    (table / 4096) * 1024 + 1
}

/// Raw bits of a leaf written over the entry `old` for the frame of `paddr` with the
/// normalized flags `f`: the eight flag bits are replaced, `f` and the
/// valid bit are set, the page number is replaced, and every other bit is kept.
pub open spec fn leaf_entry_bits(old: u64, paddr: u64, f: u64) -> u64 {
    (((old & !0xffu64) | (f | 1u64)) & !(0xfff_ffff_ffffu64 << 10u64)) | ((((paddr / 4096) as u64)
        & 0xfff_ffff_ffffu64) << 10u64)
}

/// The low page-number bits that a leaf found at `level` takes from the virtual address:
/// none at the lowest level, 9 more for each level above.
pub open spec fn level_mask(level: int) -> u64 {
    if level == 0 {
        0
    } else if level == 1 {
        0x1ff
    } else if level == 2 {
        0x3_ffff
    } else {
        0x7ff_ffff
    }
}

/// Physical address that the leaf `e`, found at `level`, gives for `vaddr`: its page
/// number, with the low bits of the virtual page number or-ed in for a superpage, and the
/// page offset of `vaddr`.
pub open spec fn leaf_target(e: Entry, vaddr: u64, level: int) -> int {
    ((e.ppn_spec() as u64 | ((vaddr >> 12u64) & level_mask(level))) as int) * 4096 + vaddr % 4096
}

/// A leaf found at `level` of the walk maps a superpage of `2^(12 + 9 * level)` bytes: when
/// its page number is aligned to that size, the address it gives for `vaddr` is the start of
/// the frame plus the offset of `vaddr` within the superpage. In particular, every 4 KiB page
/// of a 2 MiB or 1 GiB mapping goes to its own frame.
pub proof fn lemma_superpage_offset(e: Entry, vaddr: u64, level: int)
    requires
        0 <= level < 4,
        e.ppn_spec() % (pow2((9 * level) as nat) as int) == 0,
    ensures
        leaf_target(e, vaddr, level) == e.ppn_spec() * 4096 + (vaddr as int) % (pow2((12 + 9 * level) as nat) as int),
{
    lemma2_to64();
    lemma2_to64_rest();
    lemma_ppn_bound(e);
    let p = e.ppn_spec() as u64;
    assert(p == e.ppn_spec());
    if level == 0 {
        assert(p < 0x1000_0000_0000 ==> (p | ((vaddr >> 12u64) & 0u64)) * 4096 + vaddr % 4096 == p * 4096 + vaddr % 4096)
            by (bit_vector);
    } else if level == 1 {
        assert(p < 0x1000_0000_0000 && p % 0x200 == 0 ==> (p | ((vaddr >> 12u64) & 0x1ffu64)) * 4096 + vaddr % 4096 == p
            * 4096 + vaddr % 0x20_0000) by (bit_vector);
    } else if level == 2 {
        assert(p < 0x1000_0000_0000 && p % 0x4_0000 == 0 ==> (p | ((vaddr >> 12u64) & 0x3_ffffu64)) * 4096 + vaddr % 4096
            == p * 4096 + vaddr % 0x4000_0000) by (bit_vector);
    } else {
        assert(p < 0x1000_0000_0000 && p % 0x800_0000 == 0 ==> (p | ((vaddr >> 12u64) & 0x7ff_ffffu64)) * 4096 + vaddr
            % 4096 == p * 4096 + vaddr % 0x80_0000_0000) by (bit_vector);
    }
}

/// The page number of an entry fits in 44 bits.
proof fn lemma_ppn_bound(e: Entry)
    ensures
        0 <= e.ppn_spec() < 0x1000_0000_0000,
{
    lemma2_to64();
    lemma2_to64_rest();
    lemma_pow2_pos(44);
    lemma_pow2_pos(10);
    assert(field(e.view_bits() as int, 10, 44) < pow2(44));
}

/// What a walk finds in one entry.
#[derive(Clone, Copy, PartialEq, Eq, Structural)]
pub enum Translation {
    /// The entry is not valid: the address is not mapped.
    Invalid,
    /// The entry maps a page; the translated physical address.
    Leaf(PhysAddr),
    /// The entry points to the next-level table at this physical address.
    Table(PhysAddr),
}

impl Entry {
    /// The address of the table that this entry points to: its page number times the page
    /// size.
    pub fn table_addr(&self) -> (r: PhysAddr)
        ensures
            r@ == self.ppn_spec() * 4096,
    {
        let ppn = self.get_ppn();
        proof {
            lemma_ppn_bound(*self);
        }
        assert(ppn < 0x1000_0000_0000 ==> ppn << 12u64 == ppn * 4096 && ppn * 4096 <= 0x00ff_ffff_ffff_f000)
            by (bit_vector);
        PhysAddr::new(ppn << 12)
    }

    /// Points this entry at a new next-level table at `table`: the entry is cleared, then
    /// marked valid and given the table's page number.
    pub fn install_table(&mut self, table: PhysAddr)
        ensures
            final(self).view_bits() == table_entry_bits(table@ as int),
    {
        self.clear();
        self.set_flags(EntryFlags::from_bits_retain(EntryFlags::VALID));
        assert((0u64 & !0xffu64) | 1u64 == 1u64) by (bit_vector);
        let p = table.page_index();
        let d = table.data();
        assert(p == d / 4096);
        self.set_ppn(p);
        assert(p < 0x1000_0000_0000 ==> ((1u64 & !(0xfff_ffff_ffffu64 << 10u64)) | ((p
            & 0xfff_ffff_ffffu64) << 10u64)) == p * 1024 + 1) by (bit_vector);
    }

    /// Fills this entry as a leaf mapping the frame of `paddr`; `flags` is kept to its read,
    /// write, execute, user and global bits, and the entry is marked valid.
    ///
    /// Fails with [`MapError::AlreadyMapped`], changing nothing, when the entry is valid and
    /// its read, write, execute, user and global bits differ from those flags.
    pub fn map_leaf(&mut self, paddr: PhysAddr, flags: EntryFlags) -> (r: Result<(), MapError>)
        ensures
            r is Err <==> (has_flags(old(self).view_bits(), EntryFlags::VALID) && (old(self).view_bits()
                & EntryFlags::ALL) & EntryFlags::RWXUG != normalized_flags(flags.view_bits())),
            r is Err ==> r == Err::<(), MapError>(MapError::AlreadyMapped) && *final(self) == *old(self),
            r is Ok ==> final(self).view_bits() == leaf_entry_bits(
                old(self).view_bits(),
                paddr@,
                normalized_flags(flags.view_bits()),
            ),
    {
        let f = flags.bits() & EntryFlags::RWXUG;
        if self.is_valid() && self.flags().bits() & EntryFlags::RWXUG != f {
            return Err(MapError::AlreadyMapped);
        }
        self.set_flags(EntryFlags::from_bits_retain(f | EntryFlags::VALID));
        let p = paddr.page_index();
        let d = paddr.data();
        assert(p == d / 4096);
        self.set_ppn(p);
        Ok(())
    }

    /// What translating `vaddr` finds in this entry, read at `level` of the walk (0 for the
    /// lowest table).
    pub fn translate(&self, vaddr: VirtAddr, level: usize) -> (r: Translation)
        requires
            level < 4,
        ensures
            !has_flags(self.view_bits(), EntryFlags::VALID) ==> r == Translation::Invalid,
            has_flags(self.view_bits(), EntryFlags::VALID) && is_leaf_bits(self.view_bits()) ==> (r matches Translation::Leaf(a)
                && a@ == leaf_target(*self, vaddr@ as u64, level as int)),
            has_flags(self.view_bits(), EntryFlags::VALID) && !is_leaf_bits(self.view_bits()) ==> (r matches Translation::Table(a)
                && a@ == self.ppn_spec() * 4096),
    {
        if !self.is_valid() {
            return Translation::Invalid;
        }
        if self.is_leaf() {
            let ppn = self.get_ppn();
            let va = vaddr.data() as u64;
            let mask: u64 = if level == 0 {
                0
            } else if level == 1 {
                0x1ff
            } else if level == 2 {
                0x3_ffff
            } else {
                0x7ff_ffff
            };
            proof {
                lemma_ppn_bound(*self);
            }
            let frame = ppn | ((va >> 12) & mask);
            assert(ppn < 0x1000_0000_0000 && mask <= 0x7ff_ffff ==> (ppn | ((va >> 12u64) & mask))
                < 0x1000_0000_0000) by (bit_vector);
            assert(frame < 0x1000_0000_0000 ==> frame << 12u64 == frame * 4096 && frame * 4096
                <= 0x00ff_ffff_ffff_f000) by (bit_vector);
            let base = PhysAddr::new(frame << 12);
            let off = vaddr.page_offset() as u64;
            return Translation::Leaf(base + off);
        }
        Translation::Table(self.table_addr())
    }
}

/// Mapping a page, then translating an address of that page at the lowest level, gives the
/// frame's address plus the page offset, when the flags make the entry a leaf.
pub proof fn lemma_mapped_leaf_translates(old: Entry, new: Entry, paddr: PhysAddr, flags: EntryFlags, vaddr: VirtAddr)
    requires
        paddr@ <= PHYS_ADDR_MAX,
        new.view_bits() == leaf_entry_bits(old.view_bits(), paddr@, normalized_flags(flags.view_bits())),
        flags.view_bits() & EntryFlags::RWX != 0,
    ensures
        has_flags(new.view_bits(), EntryFlags::VALID),
        is_leaf_bits(new.view_bits()),
        leaf_target(new, vaddr@ as u64, 0) == paddr@ - paddr@ % 4096 + vaddr@ % 4096,
{
    lemma_leaf_target_mapped(old, new, paddr, flags, vaddr@ as u64);
    assert(vaddr@ as u64 % 4096 == vaddr@ % 4096);
}

/// The target of a freshly written leaf, at the lowest level, for any address.
proof fn lemma_leaf_target_mapped(old: Entry, new: Entry, paddr: PhysAddr, flags: EntryFlags, va: u64)
    requires
        paddr@ <= PHYS_ADDR_MAX,
        new.view_bits() == leaf_entry_bits(old.view_bits(), paddr@, normalized_flags(flags.view_bits())),
        flags.view_bits() & EntryFlags::RWX != 0,
    ensures
        has_flags(new.view_bits(), EntryFlags::VALID),
        is_leaf_bits(new.view_bits()),
        leaf_target(new, va, 0) == paddr@ - paddr@ % 4096 + va % 4096,
{
    let o = old.view_bits();
    let b = new.view_bits();
    let fl = flags.view_bits();
    let p = (paddr@ / 4096) as u64;
    assert(p < 0x1000_0000_0000);
    assert(b == (((o & !0xffu64) | ((fl & 0x3eu64) | 1u64)) & !(0xfff_ffff_ffffu64 << 10u64)) | ((p
        & 0xfff_ffff_ffffu64) << 10u64));
    assert(b == (((o & !0xffu64) | ((fl & 0x3eu64) | 1u64)) & !(0xfff_ffff_ffffu64 << 10u64)) | ((p
        & 0xfff_ffff_ffffu64) << 10u64) && p < 0x1000_0000_0000 && fl & 0xeu64 != 0 ==> b & 1u64 == 1u64
        && (b & 2u64 == 2u64 || b & 4u64 == 4u64 || b & 8u64 == 8u64) && (b >> 10u64) & 0xfff_ffff_ffffu64
        == p) by (bit_vector);
    lemma_u64_field(b, 10, 44);
    lemma_low_bits_mask_values();
    lemma2_to64_rest();
    assert(new.ppn_spec() == p);
    assert(((new.ppn_spec() as u64) | ((va >> 12u64) & 0u64)) == p) by {
        let q = new.ppn_spec() as u64;
        assert(q | ((va >> 12u64) & 0u64) == q) by (bit_vector);
    }
}

/// Mapping a page again with the same flags is accepted.
pub proof fn lemma_remap_same_flags_accepted(old: Entry, new: Entry, paddr: PhysAddr, flags: EntryFlags)
    requires
        paddr@ <= PHYS_ADDR_MAX,
        new.view_bits() == leaf_entry_bits(old.view_bits(), paddr@, normalized_flags(flags.view_bits())),
    ensures
        (new.view_bits() & EntryFlags::ALL) & EntryFlags::RWXUG == normalized_flags(flags.view_bits()),
{
    let o = old.view_bits();
    let b = new.view_bits();
    let fl = flags.view_bits();
    let p = (paddr@ / 4096) as u64;
    assert(b == (((o & !0xffu64) | ((fl & 0x3eu64) | 1u64)) & !(0xfff_ffff_ffffu64 << 10u64)) | ((p
        & 0xfff_ffff_ffffu64) << 10u64) ==> (b & 0xffu64) & 0x3eu64 == fl
        & 0x3eu64) by (bit_vector);
}

/// Index into the table at `level` (0 for the lowest) that translating `va` uses.
pub open spec fn vpn_at(va: u64, level: int) -> int {
    field(va as int, (12 + 9 * level) as nat, 9)
}

/// Translation of `va` by a walk that starts at `table`, read at `level`, where `mem` holds
/// the lower-level tables by physical address: an invalid entry gives `None`, a leaf gives
/// its target, and any other entry leads to the table at its page number.
pub open spec fn walk_spec(table: Seq<Entry>, mem: Map<int, Seq<Entry>>, va: u64, level: int) -> Option<int>
    decreases level,
{
    if level < 0 || table.len() != 512 {
        None
    } else {
        let e = table[vpn_at(va, level)];
        if !has_flags(e.view_bits(), EntryFlags::VALID) {
            None
        } else if is_leaf_bits(e.view_bits()) {
            Some(leaf_target(e, va, level))
        } else if level == 0 || !mem.dom().contains(e.ppn_spec() * 4096) {
            None
        } else {
            walk_spec(mem[e.ppn_spec() * 4096], mem, va, level - 1)
        }
    }
}

/// From `table` at `level` down, the entries that translating `va` reads are valid
/// pointers to tables held in `mem`.
pub open spec fn path_to_lowest(table: Seq<Entry>, mem: Map<int, Seq<Entry>>, va: u64, level: int) -> bool
    decreases level,
{
    &&& table.len() == 512
    &&& level > 0 ==> {
        let e = table[vpn_at(va, level)];
        &&& has_flags(e.view_bits(), EntryFlags::VALID)
        &&& !is_leaf_bits(e.view_bits())
        &&& mem.dom().contains(e.ppn_spec() * 4096)
        &&& path_to_lowest(mem[e.ppn_spec() * 4096], mem, va, level - 1)
    }
}

/// The lowest-level table that translating `va` reaches from `table` at `level`.
pub open spec fn lowest_table(table: Seq<Entry>, mem: Map<int, Seq<Entry>>, va: u64, level: int) -> Seq<Entry>
    decreases level,
{
    if level <= 0 {
        table
    } else {
        lowest_table(mem[table[vpn_at(va, level)].ppn_spec() * 4096], mem, va, level - 1)
    }
}

/// Mapping a page through a walk of any depth, then translating an address of that page,
/// gives the frame's address plus the page offset: when every entry on the address's path
/// points to the next table (found there or installed by the walk) and the lowest entry is
/// the leaf that `map_leaf` wrote, with flags that make it a leaf.
pub proof fn lemma_mapped_page_translates(
    root: Seq<Entry>,
    mem: Map<int, Seq<Entry>>,
    va: u64,
    level: int,
    old: Entry,
    paddr: PhysAddr,
    flags: EntryFlags,
)
    requires
        0 <= level < 4,
        paddr@ <= PHYS_ADDR_MAX,
        flags.view_bits() & EntryFlags::RWX != 0,
        path_to_lowest(root, mem, va, level),
        lowest_table(root, mem, va, level)[vpn_at(va, 0)].view_bits() == leaf_entry_bits(
            old.view_bits(),
            paddr@,
            normalized_flags(flags.view_bits()),
        ),
    ensures
        walk_spec(root, mem, va, level) == Some(paddr@ - paddr@ % 4096 + va % 4096),
    decreases level,
{
    if level == 0 {
        let leaf = root[vpn_at(va, 0)];
        lemma_leaf_target_mapped(old, leaf, paddr, flags, va);
    } else {
        let e = root[vpn_at(va, level)];
        lemma_mapped_page_translates(mem[e.ppn_spec() * 4096], mem, va, level - 1, old, paddr, flags);
    }
}

/// An entry pointed at a table leads translation to that table.
pub proof fn lemma_installed_table_descends(e: Entry, table: PhysAddr)
    requires
        table@ <= PHYS_ADDR_MAX,
        e.view_bits() == table_entry_bits(table@ as int),
    ensures
        has_flags(e.view_bits(), EntryFlags::VALID),
        !is_leaf_bits(e.view_bits()),
        e.ppn_spec() * 4096 == table@ - table@ % 4096,
{
    let b = e.view_bits();
    let p = (table@ / 4096) as u64;
    assert(p < 0x1000_0000_0000);
    assert(b == p * 1024 + 1 && p < 0x1000_0000_0000 ==> b & 1u64 == 1u64 && b & 2u64 == 0u64 && b
        & 4u64 == 0u64 && b & 8u64 == 0u64 && (b >> 10u64) & 0xfff_ffff_ffffu64 == p) by (bit_vector);
    lemma_u64_field(b, 10, 44);
    lemma_low_bits_mask_values();
    lemma2_to64_rest();
    assert(e.ppn_spec() == p);
    assert(p * 4096 == table@ - table@ % 4096);
}

/// The pages that identity-mapping `[start, end)` covers: the first page (the start rounded
/// down to a page) and the number of pages up to the end rounded up to a page.
pub fn identity_map_pages(start: PhysAddr, end: PhysAddr) -> (r: (PhysAddr, u64))
    requires
        end@ + 4095 <= PHYS_ADDR_MAX,
        align_down_spec(start@ as int, 4096) <= align_up_spec(end@ as int, 4096),
    ensures
        r.0@ == align_down_spec(start@ as int, 4096),
        r.1 == (align_up_spec(end@ as int, 4096) - align_down_spec(start@ as int, 4096)) / 4096,
{
    proof {
        lemma2_to64();
        assert(is_power_of_two(4096nat)) by {
            assert(pow2(12) == 4096nat);
        }
        crate::align::lemma_align_up_props(end@ as int, 4096);
    }
    let first = start.align_down(4096);
    let last = end.align_up(4096);
    let span = u64::from(last - first);
    assert(span >> 12u64 == span / 4096) by (bit_vector);
    (first, span >> 12)
}

} // verus!
