//! DMA-capable memory: buffers, objects and slices, and their device-visible addresses.
use vstd::prelude::*;
use crate::mm::addr::DmaAddr;

verus! {

/// Error type for DMA allocation failures.
#[derive(Debug, Clone, Copy, PartialEq, Eq, Structural)]
pub enum DmaAllocError {
    /// Not enough memory available to satisfy the allocation request.
    OutOfMemory,
}

/// Direction of a DMA transfer.
#[derive(Debug, Clone, Copy, PartialEq, Eq, Structural)]
pub enum DmaDirection {
    /// Memory to device transfer.
    ToDevice,
    /// Device to memory transfer.
    FromDevice,
    /// Bidirectional transfer.
    Bidirectional,
}

/// A DMA-capable buffer: its CPU address, device address, size and alignment.
#[derive(Debug)]
pub struct DmaBuf {
    cpu_addr: usize,
    dma_addr: DmaAddr,
    size: usize,
    align: usize,
}

impl DmaBuf {
    /// The CPU-side address of the buffer.
    pub closed spec fn cpu_addr_spec(&self) -> usize {
        self.cpu_addr
    }

    /// The device-visible address of the buffer.
    pub closed spec fn dma_addr_spec(&self) -> DmaAddr {
        self.dma_addr
    }

    /// The size of the buffer in bytes.
    pub closed spec fn size_spec(&self) -> usize {
        self.size
    }

    /// The alignment of the buffer.
    pub closed spec fn align_spec(&self) -> usize {
        self.align
    }

    /// Describes a buffer of `size` bytes at CPU address `cpu_addr` and device address
    /// `dma_addr`, aligned to `align`.
    pub fn new_unchecked(cpu_addr: usize, dma_addr: DmaAddr, size: usize, align: usize) -> (r: Self)
        ensures
            r.cpu_addr_spec() == cpu_addr,
            r.dma_addr_spec() == dma_addr,
            r.size_spec() == size,
            r.align_spec() == align,
    {
        DmaBuf { cpu_addr, dma_addr, size, align }
    }

    /// Returns the CPU-side address of the buffer.
    pub fn cpu_addr(&self) -> (r: usize)
        ensures
            r == self.cpu_addr_spec(),
    {
        self.cpu_addr
    }

    /// Returns the DMA-capable physical address of the buffer.
    pub fn dma_addr(&self) -> (r: DmaAddr)
        ensures
            r == self.dma_addr_spec(),
    {
        self.dma_addr
    }

    /// Returns the length of the buffer in bytes.
    pub fn size(&self) -> (r: usize)
        ensures
            r == self.size_spec(),
    {
        self.size
    }

    /// Returns the alignment of the buffer.
    pub fn align(&self) -> (r: usize)
        ensures
            r == self.align_spec(),
    {
        self.align
    }
}

/// A contiguous slice of `len` elements in DMA-capable memory.
#[derive(Debug)]
pub struct DmaSlice {
    dma_addr: DmaAddr,
    len: usize,
    size: usize,
}

impl DmaSlice {
    /// The device-visible address of the slice.
    pub closed spec fn dma_addr_spec(&self) -> DmaAddr {
        self.dma_addr
    }

    /// The number of elements.
    pub closed spec fn len_spec(&self) -> usize {
        self.len
    }

    /// The size in bytes.
    pub closed spec fn size_spec(&self) -> usize {
        self.size
    }

    /// Describes `len` elements occupying `size` bytes at device address `dma_addr`.
    pub fn new_unchecked(dma_addr: DmaAddr, len: usize, size: usize) -> (r: Self)
        ensures
            r.dma_addr_spec() == dma_addr,
            r.len_spec() == len,
            r.size_spec() == size,
    {
        DmaSlice { dma_addr, len, size }
    }

    /// Returns the DMA-capable physical address of the slice.
    pub fn dma_addr(&self) -> (r: DmaAddr)
        ensures
            r == self.dma_addr_spec(),
    {
        self.dma_addr
    }

    /// Returns the length of the slice in number of elements.
    pub fn len(&self) -> (r: usize)
        ensures
            r == self.len_spec(),
    {
        self.len
    }

    /// Returns true if the slice is empty.
    pub fn is_empty(&self) -> (r: bool)
        ensures
            r == (self.len_spec() == 0),
    {
        self.len == 0
    }

    /// Returns the length of the slice in bytes.
    pub fn size(&self) -> (r: usize)
        ensures
            r == self.size_spec(),
    {
        self.size
    }
}

} // verus!
