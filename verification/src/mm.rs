//! Kernel memory management.
pub mod addr;
pub mod allocator;
pub mod dma;
pub mod mmio;
pub mod phys;
