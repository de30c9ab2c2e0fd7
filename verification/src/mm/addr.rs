//! Kernel memory address types.
//!
//! The address types are wrappers around `usize`, ensuring pointer-sized representation.
use vstd::prelude::*;
use vstd::std_specs::ops::{AddSpecImpl, SubSpecImpl};
use crate::align::{Align, is_power_of_two, aligned, align_up_spec, align_down_spec, align_up_usize, align_down_usize, is_aligned_usize};

verus! {

/// Error type returned by failed address conversions or operations on invalid addresses.
#[derive(Debug, Clone, Copy, PartialEq, Eq, Structural)]
pub struct InvalidAddrError;

/// A physical memory address.
#[derive(Debug, Clone, Copy, PartialEq, Eq, Structural)]
pub struct PhysAddr(usize);

impl View for PhysAddr {
    type V = usize;

    closed spec fn view(&self) -> usize {
        self.0
    }
}

impl PhysAddr {
    /// Creates a new physical address without checking whether `addr` is a valid address.
    pub fn new_unchecked(addr: usize) -> (r: Self)
        ensures
            r@ == addr,
    {
        PhysAddr(addr)
    }

    /// Returns the inner representation of the address.
    pub fn as_usize(self) -> (r: usize)
        ensures
            r == self@,
    {
        self.0
    }

    /// Returns the integer representation of this address.
    pub fn data(self) -> (r: usize)
        ensures
            r == self@,
    {
        self.0
    }

    /// Whether `self` lies strictly below `other`.
    pub fn lt(self, other: Self) -> (r: bool)
        ensures
            r == (self@ < other@),
    {
        self.0 < other.0
    }
}

impl core::ops::Add<usize> for PhysAddr {
    type Output = PhysAddr;

    fn add(self, rhs: usize) -> (r: PhysAddr)
        ensures
            r@ == self@ + rhs,
    {
        PhysAddr(self.0 + rhs)
    }
}

impl AddSpecImpl<usize> for PhysAddr {
    open spec fn obeys_add_spec() -> bool {
        false
    }

    open spec fn add_req(self, rhs: usize) -> bool {
        self@ + rhs <= usize::MAX
    }

    open spec fn add_spec(self, rhs: usize) -> PhysAddr {
        self
    }
}

impl core::ops::Sub for PhysAddr {
    type Output = PhysAddr;

    fn sub(self, rhs: PhysAddr) -> (r: PhysAddr)
        ensures
            r@ == self@ - rhs@,
    {
        PhysAddr(self.0 - rhs.0)
    }
}

impl SubSpecImpl for PhysAddr {
    open spec fn obeys_sub_spec() -> bool {
        false
    }

    open spec fn sub_req(self, rhs: PhysAddr) -> bool {
        self@ >= rhs@
    }

    open spec fn sub_spec(self, rhs: PhysAddr) -> PhysAddr {
        self
    }
}

impl Align<usize> for PhysAddr {
    open spec fn align_req(align: usize) -> bool {
        is_power_of_two(align as nat)
    }

    open spec fn align_up_req(&self, align: usize) -> bool {
        self@ + align - 1 <= usize::MAX
    }

    fn align_up(&self, align: usize) -> (r: PhysAddr)
        ensures
            r@ == align_up_spec(self@ as int, align as int),
    {
        PhysAddr(align_up_usize(self.0, align))
    }

    fn align_down(&self, align: usize) -> (r: PhysAddr)
        ensures
            r@ == align_down_spec(self@ as int, align as int),
    {
        PhysAddr(align_down_usize(self.0, align))
    }

    fn is_aligned(&self, align: usize) -> (r: bool)
        ensures
            r == aligned(self@ as int, align as int),
    {
        is_aligned_usize(self.0, align)
    }
}

impl core::ops::Sub<usize> for PhysAddr {
    type Output = PhysAddr;

    fn sub(self, rhs: usize) -> (r: PhysAddr)
        ensures
            r@ == self@ - rhs,
    {
        PhysAddr(self.0 - rhs)
    }
}

impl SubSpecImpl<usize> for PhysAddr {
    open spec fn obeys_sub_spec() -> bool {
        false
    }

    open spec fn sub_req(self, rhs: usize) -> bool {
        self@ >= rhs
    }

    open spec fn sub_spec(self, rhs: usize) -> PhysAddr {
        self
    }
}


/// A virtual memory address.
#[derive(Debug, Clone, Copy, PartialEq, Eq, Structural)]
pub struct VirtAddr(usize);

impl View for VirtAddr {
    type V = usize;

    closed spec fn view(&self) -> usize {
        self.0
    }
}

impl VirtAddr {
    /// Creates a new address without checking whether `addr` is a valid address.
    pub fn new_unchecked(addr: usize) -> (r: Self)
        ensures
            r@ == addr,
    {
        VirtAddr(addr)
    }

    /// Returns the inner representation of the address.
    pub fn as_usize(self) -> (r: usize)
        ensures
            r == self@,
    {
        self.0
    }

    /// Whether `self` lies strictly below `other`.
    pub fn lt(self, other: Self) -> (r: bool)
        ensures
            r == (self@ < other@),
    {
        self.0 < other.0
    }
}

impl core::ops::Add<usize> for VirtAddr {
    type Output = VirtAddr;

    fn add(self, rhs: usize) -> (r: VirtAddr)
        ensures
            r@ == self@ + rhs,
    {
        VirtAddr(self.0 + rhs)
    }
}

impl AddSpecImpl<usize> for VirtAddr {
    open spec fn obeys_add_spec() -> bool {
        false
    }

    open spec fn add_req(self, rhs: usize) -> bool {
        self@ + rhs <= usize::MAX
    }

    open spec fn add_spec(self, rhs: usize) -> VirtAddr {
        self
    }
}

impl core::ops::Sub for VirtAddr {
    type Output = VirtAddr;

    fn sub(self, rhs: VirtAddr) -> (r: VirtAddr)
        ensures
            r@ == self@ - rhs@,
    {
        VirtAddr(self.0 - rhs.0)
    }
}

impl SubSpecImpl for VirtAddr {
    open spec fn obeys_sub_spec() -> bool {
        false
    }

    open spec fn sub_req(self, rhs: VirtAddr) -> bool {
        self@ >= rhs@
    }

    open spec fn sub_spec(self, rhs: VirtAddr) -> VirtAddr {
        self
    }
}

impl core::ops::Sub<usize> for VirtAddr {
    type Output = VirtAddr;

    fn sub(self, rhs: usize) -> (r: VirtAddr)
        ensures
            r@ == self@ - rhs,
    {
        VirtAddr(self.0 - rhs)
    }
}

impl SubSpecImpl<usize> for VirtAddr {
    open spec fn obeys_sub_spec() -> bool {
        false
    }

    open spec fn sub_req(self, rhs: usize) -> bool {
        self@ >= rhs
    }

    open spec fn sub_spec(self, rhs: usize) -> VirtAddr {
        self
    }
}

impl Align<usize> for VirtAddr {
    open spec fn align_req(align: usize) -> bool {
        is_power_of_two(align as nat)
    }

    open spec fn align_up_req(&self, align: usize) -> bool {
        self@ + align - 1 <= usize::MAX
    }

    fn align_up(&self, align: usize) -> (r: VirtAddr)
        ensures
            r@ == align_up_spec(self@ as int, align as int),
    {
        VirtAddr(align_up_usize(self.0, align))
    }

    fn align_down(&self, align: usize) -> (r: VirtAddr)
        ensures
            r@ == align_down_spec(self@ as int, align as int),
    {
        VirtAddr(align_down_usize(self.0, align))
    }

    fn is_aligned(&self, align: usize) -> (r: bool)
        ensures
            r == aligned(self@ as int, align as int),
    {
        is_aligned_usize(self.0, align)
    }
}

/// DMA-capable physical address.
#[derive(Debug, Clone, Copy, PartialEq, Eq, Structural)]
pub struct DmaAddr(usize);

impl View for DmaAddr {
    type V = usize;

    closed spec fn view(&self) -> usize {
        self.0
    }
}

impl DmaAddr {
    /// The address with value `a`.
    pub closed spec fn spec_new(a: int) -> DmaAddr {
        DmaAddr(a as usize)
    }

    /// An address is determined by its value.
    pub proof fn lemma_spec_new(d: DmaAddr, a: usize)
        requires
            d@ == a,
        ensures
            d == DmaAddr::spec_new(a as int),
            DmaAddr::spec_new(a as int)@ == a,
    {
    }

    /// Creates a new address without checking whether `addr` is a valid address.
    pub fn new_unchecked(addr: usize) -> (r: Self)
        ensures
            r@ == addr,
    {
        DmaAddr(addr)
    }

    /// Returns the inner representation of the address.
    pub fn as_usize(self) -> (r: usize)
        ensures
            r == self@,
    {
        self.0
    }

    /// Whether `self` lies strictly below `other`.
    pub fn lt(self, other: Self) -> (r: bool)
        ensures
            r == (self@ < other@),
    {
        self.0 < other.0
    }
}

impl core::ops::Add<usize> for DmaAddr {
    type Output = DmaAddr;

    fn add(self, rhs: usize) -> (r: DmaAddr)
        ensures
            r@ == self@ + rhs,
    {
        DmaAddr(self.0 + rhs)
    }
}

impl AddSpecImpl<usize> for DmaAddr {
    open spec fn obeys_add_spec() -> bool {
        false
    }

    open spec fn add_req(self, rhs: usize) -> bool {
        self@ + rhs <= usize::MAX
    }

    open spec fn add_spec(self, rhs: usize) -> DmaAddr {
        self
    }
}

impl core::ops::Sub for DmaAddr {
    type Output = DmaAddr;

    fn sub(self, rhs: DmaAddr) -> (r: DmaAddr)
        ensures
            r@ == self@ - rhs@,
    {
        DmaAddr(self.0 - rhs.0)
    }
}

impl SubSpecImpl for DmaAddr {
    open spec fn obeys_sub_spec() -> bool {
        false
    }

    open spec fn sub_req(self, rhs: DmaAddr) -> bool {
        self@ >= rhs@
    }

    open spec fn sub_spec(self, rhs: DmaAddr) -> DmaAddr {
        self
    }
}

impl core::ops::Sub<usize> for DmaAddr {
    type Output = DmaAddr;

    fn sub(self, rhs: usize) -> (r: DmaAddr)
        ensures
            r@ == self@ - rhs,
    {
        DmaAddr(self.0 - rhs)
    }
}

impl SubSpecImpl<usize> for DmaAddr {
    open spec fn obeys_sub_spec() -> bool {
        false
    }

    open spec fn sub_req(self, rhs: usize) -> bool {
        self@ >= rhs
    }

    open spec fn sub_spec(self, rhs: usize) -> DmaAddr {
        self
    }
}

impl Align<usize> for DmaAddr {
    open spec fn align_req(align: usize) -> bool {
        is_power_of_two(align as nat)
    }

    open spec fn align_up_req(&self, align: usize) -> bool {
        self@ + align - 1 <= usize::MAX
    }

    fn align_up(&self, align: usize) -> (r: DmaAddr)
        ensures
            r@ == align_up_spec(self@ as int, align as int),
    {
        DmaAddr(align_up_usize(self.0, align))
    }

    fn align_down(&self, align: usize) -> (r: DmaAddr)
        ensures
            r@ == align_down_spec(self@ as int, align as int),
    {
        DmaAddr(align_down_usize(self.0, align))
    }

    fn is_aligned(&self, align: usize) -> (r: bool)
        ensures
            r == aligned(self@ as int, align as int),
    {
        is_aligned_usize(self.0, align)
    }
}

} // verus!
