//! Page table entries and page tables (Sv48).
use vstd::prelude::*;
use vstd::arithmetic::power2::{pow2, lemma2_to64, lemma2_to64_rest};
use vstd::bits::{low_bits_mask, lemma_low_bits_mask_values, lemma_u64_low_bits_mask_is_mod};
use crate::bits::{field, lemma_u64_field};
use crate::riscv::addr::{PhysAddr, VirtAddr, canonical48, sign_extend48};

verus! {

/// Mask of the physical page number held in an entry (44 bits in Sv48).
pub const PTE_PPN_MASK: u64 = 0xfff_ffff_ffff;

/// Bit position of the physical page number in an entry.
pub const PTE_PPN_OFFSET: u64 = 10;

/// Number of levels of page tables (Sv48).
pub const PAGE_LEVELS: usize = 4;

/// Whether all bits of `flag` are set in `bits`.
pub open spec fn has_flags(bits: u64, flag: u64) -> bool {
    bits & flag == flag
}

/// Bitfields of a page table entry.
#[derive(Debug, Clone, Copy, PartialEq, Eq, Hash, Structural)]
pub struct EntryFlags {
    bits: u64,
}

impl EntryFlags {
    /// If set, this entry represents a valid mapping.
    pub const VALID: u64 = 0x1;
    /// If set, this page contains readable memory.
    pub const READ: u64 = 0x2;
    /// If set, this page contains writable memory.
    pub const WRITE: u64 = 0x4;
    /// If set, this page contains executable memory.
    pub const EXEC: u64 = 0x8;
    /// If set, this page can be accessed in U-mode.
    pub const USER: u64 = 0x10;
    /// If set, this mapping is global.
    pub const GLOBAL: u64 = 0x20;
    /// If set, this page has been accessed by the CPU.
    pub const ACCESS: u64 = 0x40;
    /// If set, this page has been written by the CPU.
    pub const DIRTY: u64 = 0x80;
    /// If set, this page contains read-write memory.
    pub const RW: u64 = 0x6;
    /// If set, this page contains read-exec memory.
    pub const RX: u64 = 0xa;
    /// If set, this page contains read-write-exec memory.
    pub const RWX: u64 = 0xe;
    /// Mask of user-settable flags on a page table entry.
    pub const RWXUG: u64 = 0x3e;
    /// Combination of all the flag bits above.
    pub const ALL: u64 = 0xff;

    /// The raw bits.
    pub closed spec fn view_bits(self) -> u64 {
        self.bits
    }

    /// Builds flags from raw bits, keeping all of them.
    pub fn from_bits_retain(bits: u64) -> (r: Self)
        ensures
            r.view_bits() == bits,
    {
        EntryFlags { bits }
    }

    /// Returns the raw bits.
    pub fn bits(&self) -> (r: u64)
        ensures
            r == self.view_bits(),
    {
        self.bits
    }

    /// Whether all bits of `flag` are set.
    pub fn contains(&self, flag: u64) -> (r: bool)
        ensures
            r == has_flags(self.view_bits(), flag),
    {
        self.bits & flag == flag
    }

    /// Whether any bit of `flag` is set.
    pub fn intersects(&self, flag: u64) -> (r: bool)
        ensures
            r == (self.view_bits() & flag != 0),
    {
        self.bits & flag != 0
    }
}

/// An entry in a [`PageTable`].
#[derive(Debug, Clone, Copy, PartialEq, Eq, Hash, Structural)]
pub struct Entry {
    inner: EntryFlags,
}

impl Entry {
    /// The raw bits of the entry.
    pub closed spec fn view_bits(self) -> u64 {
        self.inner.bits
    }

    /// The physical page number held in the entry: bits 10 to 53.
    pub open spec fn ppn_spec(self) -> int {
        field(self.view_bits() as int, 10, 44)
    }

    /// Builds an entry from its raw bits.
    pub fn from_bits(bits: u64) -> (r: Self)
        ensures
            r.view_bits() == bits,
    {
        Entry { inner: EntryFlags { bits } }
    }

    /// Returns the raw bits of the entry.
    pub fn bits(&self) -> (r: u64)
        ensures
            r == self.view_bits(),
    {
        self.inner.bits
    }

    /// Returns whether the mapping contained in this entry is valid for use in translation.
    pub fn is_valid(&self) -> (r: bool)
        ensures
            r == has_flags(self.view_bits(), EntryFlags::VALID),
    {
        self.inner.contains(EntryFlags::VALID)
    }

    /// Returns whether the page pointed to by this entry is readable.
    pub fn is_read(&self) -> (r: bool)
        ensures
            r == has_flags(self.view_bits(), EntryFlags::READ),
    {
        self.inner.contains(EntryFlags::READ)
    }

    /// Returns whether the page pointed to by this entry is writable.
    pub fn is_write(&self) -> (r: bool)
        ensures
            r == has_flags(self.view_bits(), EntryFlags::WRITE),
    {
        self.inner.contains(EntryFlags::WRITE)
    }

    /// Returns whether the page pointed to by this entry contains executable code.
    pub fn is_exec(&self) -> (r: bool)
        ensures
            r == has_flags(self.view_bits(), EntryFlags::EXEC),
    {
        self.inner.contains(EntryFlags::EXEC)
    }

    /// Returns whether the page pointed to by this entry can be accessed in U-Mode.
    pub fn is_user(&self) -> (r: bool)
        ensures
            r == has_flags(self.view_bits(), EntryFlags::USER),
    {
        self.inner.contains(EntryFlags::USER)
    }

    /// Returns whether the mapping in this entry is global.
    ///
    /// Global mappings can be accessed in all address spaces.
    pub fn is_global(&self) -> (r: bool)
        ensures
            r == has_flags(self.view_bits(), EntryFlags::GLOBAL),
    {
        self.inner.contains(EntryFlags::GLOBAL)
    }

    /// Returns whether the virtual page that this mapping points to has been accessed
    /// since the last time this flag was cleared.
    pub fn is_accessed(&self) -> (r: bool)
        ensures
            r == has_flags(self.view_bits(), EntryFlags::ACCESS),
    {
        self.inner.contains(EntryFlags::ACCESS)
    }

    /// Returns whether the virtual page that this mapping points to has been written
    /// since the last time this flag was cleared.
    pub fn is_dirty(&self) -> (r: bool)
        ensures
            r == has_flags(self.view_bits(), EntryFlags::DIRTY),
    {
        self.inner.contains(EntryFlags::DIRTY)
    }

    /// Returns whether this entry is a leaf or a pointer to another page table.
    ///
    /// Equivalent to `self.is_read() || self.is_write() || self.is_exec()`.
    pub fn is_leaf(&self) -> (r: bool)
        ensures
            r == (has_flags(self.view_bits(), EntryFlags::READ) || has_flags(self.view_bits(), EntryFlags::WRITE)
                || has_flags(self.view_bits(), EntryFlags::EXEC)),
    {
        let b = self.inner.bits;
        assert((b & 0xe != 0) == (b & 2 == 2 || b & 4 == 4 || b & 8 == 8)) by (bit_vector);
        self.inner.intersects(EntryFlags::RWX)
    }

    /// Returns the flags currently set on this entry: its low eight bits.
    pub fn flags(&self) -> (r: EntryFlags)
        ensures
            r.view_bits() == self.view_bits() & EntryFlags::ALL,
    {
        EntryFlags { bits: self.inner.bits & EntryFlags::ALL }
    }

    /// Resets the bits of this entry to zero.
    pub fn clear(&mut self)
        ensures
            final(self).view_bits() == 0,
    {
        self.inner.bits = 0;
    }

    /// Sets this entry's flags: all eight flag bits are cleared, then every bit of `flags` is
    /// set.
    pub fn set_flags(&mut self, flags: EntryFlags)
        ensures
            final(self).view_bits() == (old(self).view_bits() & !EntryFlags::ALL) | flags.view_bits(),
    {
        self.inner.bits = self.inner.bits & !EntryFlags::ALL;
        self.inner.bits = self.inner.bits | flags.bits;
    }

    /// Returns the PPN portion of this entry.
    pub fn get_ppn(&self) -> (r: u64)
        ensures
            r == self.ppn_spec(),
    {
        let b = self.inner.bits;
        proof {
            lemma_u64_field(b, 10, 44);
            lemma_low_bits_mask_values();
            lemma2_to64_rest();
        }
        (b >> 10) & 0xfff_ffff_ffff
    }

    /// Sets the PPN portion of this entry to the provided value, truncated to 44 bits; the
    /// other bits of the entry are kept.
    pub fn set_ppn(&mut self, ppn: u64)
        ensures
            final(self).ppn_spec() == ppn % 0x1000_0000_0000,
            field(final(self).view_bits() as int, 0, 10) == field(old(self).view_bits() as int, 0, 10),
            field(final(self).view_bits() as int, 54, 10) == field(old(self).view_bits() as int, 54, 10),
            final(self).view_bits() & EntryFlags::ALL == old(self).view_bits() & EntryFlags::ALL,
            final(self).view_bits() == (old(self).view_bits() & !(PTE_PPN_MASK << PTE_PPN_OFFSET))
                | ((ppn & PTE_PPN_MASK) << PTE_PPN_OFFSET),
    {
        let old_bits = self.inner.bits;
        let new_bits = (old_bits & !(PTE_PPN_MASK << PTE_PPN_OFFSET)) | ((ppn & PTE_PPN_MASK) << PTE_PPN_OFFSET);
        proof {
            assert((new_bits >> 10) & 0xfff_ffff_ffff == ppn & 0xfff_ffff_ffff) by (bit_vector)
                requires new_bits == (old_bits & !(0xfff_ffff_ffffu64 << 10u64)) | ((ppn & 0xfff_ffff_ffffu64) << 10u64);
            assert((new_bits >> 0) & 0x3ff == (old_bits >> 0) & 0x3ff
                && (new_bits >> 54) & 0x3ff == (old_bits >> 54) & 0x3ff
                && new_bits & 0xff == old_bits & 0xff) by (bit_vector)
                requires new_bits == (old_bits & !(0xfff_ffff_ffffu64 << 10u64)) | ((ppn & 0xfff_ffff_ffffu64) << 10u64);
            lemma_low_bits_mask_values();
            lemma_u64_field(new_bits, 10, 44);
            lemma_u64_field(new_bits, 0, 10);
            lemma_u64_field(old_bits, 0, 10);
            lemma_u64_field(new_bits, 54, 10);
            lemma_u64_field(old_bits, 54, 10);
            lemma_u64_low_bits_mask_is_mod(ppn, 44);
            lemma2_to64_rest();
        }
        self.inner.bits = new_bits;
    }
}

/// A page table for virtual address translation: 512 entries.
#[derive(Debug)]
pub struct PageTable {
    entries: [Entry; 512],
}

impl PageTable {
    /// The entries of the table.
    pub closed spec fn entries_spec(&self) -> Seq<Entry> {
        self.entries@
    }

    /// Creates a page table whose entries are all zero.
    pub fn new() -> (r: Self)
        ensures
            r.entries_spec().len() == 512,
            forall|i: int| 0 <= i < 512 ==> #[trigger] r.entries_spec()[i].view_bits() == 0,
    {
        PageTable { entries: [Entry { inner: EntryFlags { bits: 0 } }; 512] }
    }

    /// Resets all the entries of this page table to zero.
    pub fn clear(&mut self)
        ensures
            final(self).entries_spec().len() == 512,
            forall|i: int| 0 <= i < 512 ==> #[trigger] final(self).entries_spec()[i].view_bits() == 0,
    {
        let mut i: usize = 0;
        while i < 512
            invariant
                self.entries@.len() == 512,
                i <= 512,
                forall|j: int| 0 <= j < i ==> #[trigger] self.entries@[j].view_bits() == 0,
            decreases 512 - i,
        {
            self.entries[i] = Entry { inner: EntryFlags { bits: 0 } };
            i += 1;
        }
    }

    /// Returns a reference to an entry in this page table.
    pub fn get_entry(&self, i: usize) -> (r: Option<&Entry>)
        ensures
            i < 512 ==> r == Some(&self.entries_spec()[i as int]),
            i >= 512 ==> r is None,
    {
        if i < 512 {
            Some(&self.entries[i])
        } else {
            None
        }
    }

    /// Returns a mutable reference to an entry in this page table.
    pub fn get_entry_mut(&mut self, i: usize) -> (r: Option<&mut Entry>)
        ensures
            i < 512 ==> (r matches Some(e) && *e == old(self).entries_spec()[i as int]
                && final(self).entries_spec() == old(self).entries_spec().update(i as int, *final(e))),
            i >= 512 ==> r is None && final(self).entries_spec() == old(self).entries_spec(),
    {
        if i < 512 {
            Some(&mut self.entries[i])
        } else {
            None
        }
    }

    /// Replaces an entry of this page table; returns `false`, changing nothing, when `i` is
    /// out of range.
    pub fn set_entry(&mut self, i: usize, e: Entry) -> (r: bool)
        ensures
            r == (i < 512),
            i < 512 ==> final(self).entries_spec() == old(self).entries_spec().update(i as int, e),
            i >= 512 ==> final(self).entries_spec() == old(self).entries_spec(),
    {
        if i < 512 {
            self.entries[i] = e;
            true
        } else {
            false
        }
    }

    /// Returns an iterator over the entries in this page table.
    pub fn iter(&self) -> (r: core::slice::Iter<'_, Entry>)
        ensures
            vstd::std_specs::slice::into_iter_elts(r) == self.entries_spec(),
    {
        let it = self.entries.as_slice().iter();
        proof {
            broadcast use vstd::std_specs::slice::axiom_spec_slice_iter;
        }
        it
    }
}

/// Possible sizes for page table mappings.
#[derive(Debug, Clone, Copy, PartialEq, Eq, Hash, Structural)]
pub enum PageSize {
    /// 4KiB page.
    Kb,
    /// 2MiB _megapage_.
    Mb,
    /// 1GiB _gigapage_.
    Gb,
    /// 512GiB _terapage_.
    Tb,
}

impl PageSize {
    /// Converts this page size to the page table level which this page maps to.
    pub fn to_table_level(self) -> (r: usize)
        ensures
            r == match self {
                PageSize::Kb => 0usize,
                PageSize::Mb => 1usize,
                PageSize::Gb => 2usize,
                PageSize::Tb => 3usize,
            },
    {
        match self {
            PageSize::Kb => 0,
            PageSize::Mb => 1,
            PageSize::Gb => 2,
            PageSize::Tb => 3,
        }
    }
}

/// An error condition returned by memory mapping functions.
#[derive(Debug, Clone, Copy, PartialEq, Eq, Hash, Structural)]
pub enum MapError {
    /// The requested page was already mapped with different flags.
    AlreadyMapped,
    /// Frame allocation failed.
    AllocationFailed,
}

/// A memory mapper that requires that the whole physical address space is mapped at some offset
/// in the virtual address space.
pub struct OffsetPageMapper {
    phys_offset: VirtAddr,
}

impl OffsetPageMapper {
    /// The virtual address at which physical address zero is mapped.
    pub closed spec fn offset_spec(self) -> VirtAddr {
        self.phys_offset
    }

    /// Creates a new mapper that uses the given offset to translate physical to virtual
    /// addresses.
    pub fn new(phys_offset: VirtAddr) -> (r: Self)
        ensures
            r.offset_spec() == phys_offset,
    {
        OffsetPageMapper { phys_offset }
    }

    /// Translates a physical address into the corresponding virtual address: the physical
    /// address plus the offset.
    pub fn phys_to_virt(&self, paddr: PhysAddr) -> (r: VirtAddr)
        requires
            paddr@ + self.offset_spec()@ <= usize::MAX,
            canonical48((paddr@ + self.offset_spec()@) as u64),
        ensures
            r@ == paddr@ + self.offset_spec()@,
    {
        let a = paddr.data() as usize + self.phys_offset.data();
        VirtAddr::new(a)
    }
}

} // verus!
