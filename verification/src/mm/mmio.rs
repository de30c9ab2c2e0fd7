//! Memory-mapped I/O regions.
//!
//! An [`IoMapping`] is a window of device registers mapped into the kernel's address space.
//! Accesses through it are bounds-checked against the size of the window.
use vstd::prelude::*;
use crate::mm::addr::{PhysAddr, VirtAddr};

verus! {

/// Errors of I/O mapping requests.
#[derive(Debug, Clone, Copy, PartialEq, Eq, Structural)]
pub enum IoMapError {
    /// The requested range is invalid.
    InvalidRange,
    /// The requested range lies outside the device address space.
    OutOfBounds,
    /// The mapping could not be created.
    MappingFailed,
}

/// A mapped window of device registers.
#[derive(Debug)]
pub struct IoMapping {
    base: VirtAddr,
    size: usize,
    pa: PhysAddr,
}

impl IoMapping {
    /// The window is not empty.
    #[verifier::type_invariant]
    spec fn inv(self) -> bool {
        self.size > 0
    }

    /// Virtual address of the window.
    pub closed spec fn virt_spec(&self) -> VirtAddr {
        self.base
    }

    /// Size of the window in bytes.
    pub closed spec fn size_spec(&self) -> usize {
        self.size
    }

    /// Physical address of the window.
    pub closed spec fn phys_spec(&self) -> PhysAddr {
        self.pa
    }

    /// Describes a window of `size` bytes mapped at `base` for the device registers at `pa`.
    pub fn new_unchecked(base: VirtAddr, size: usize, pa: PhysAddr) -> (r: Self)
        requires
            size > 0,
        ensures
            r.virt_spec() == base,
            r.size_spec() == size,
            r.phys_spec() == pa,
    {
        IoMapping { base, size, pa }
    }

    /// Returns the virtual address of the window.
    pub fn virt(&self) -> (r: VirtAddr)
        ensures
            r == self.virt_spec(),
    {
        self.base
    }

    /// Returns the size of the window in bytes; never zero.
    pub fn size(&self) -> (r: usize)
        ensures
            r == self.size_spec(),
            r > 0,
    {
        proof { use_type_invariant(self); }
        self.size
    }

    /// Returns the physical address of the window.
    pub fn phys(&self) -> (r: PhysAddr)
        ensures
            r == self.phys_spec(),
    {
        self.pa
    }

    /// Whether an access of `width` bytes at `offset` stays inside the window.
    pub fn access_ok(&self, offset: usize, width: usize) -> (r: bool)
        ensures
            r == (offset + width <= self.size_spec()),
    {
        offset <= self.size && width <= self.size - offset
    }

    /// The virtual address of the register at `offset`, for an access of `width` bytes that
    /// stays inside the window.
    pub fn register_addr(&self, offset: usize, width: usize) -> (r: VirtAddr)
        requires
            offset + width <= self.size_spec(),
            self.virt_spec()@ + offset <= usize::MAX,
        ensures
            r@ == self.virt_spec()@ + offset,
    {
        self.base + offset
    }
}

} // verus!
