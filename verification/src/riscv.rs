//! RISC-V specific data structures: addresses, page tables and system registers.
pub mod addr;
pub mod mmu;
pub mod walk;
pub mod registers;
