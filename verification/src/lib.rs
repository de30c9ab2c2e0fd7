//! rv6 kernel core logic, verified.
use vstd::prelude::*;

pub mod align;
pub mod bits;
pub mod riscv;
pub mod kmm;
pub mod tty;
pub mod proc;
pub mod sched;
pub mod page_bitmap;
pub mod mm;
pub mod fb;
pub mod ksyms;
pub mod initrd;
pub mod irq;
pub mod syscall;
pub mod vfs;
pub mod drivers;

verus! {
} // verus!
