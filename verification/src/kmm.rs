//! Kernel memory management: address traits and frame allocators.
use vstd::prelude::*;

pub mod allocator;

pub use crate::align::Align;

verus! {

/// A physical memory address representable as a 64-bit integer.
pub trait PhysicalAddress: Sized + Copy {
    /// The integer value of the address.
    spec fn addr(&self) -> u64;

    /// `v` is a value that this address type can hold.
    spec fn representable(v: u64) -> bool;

    /// Converts the address to its integer value.
    fn to_u64(&self) -> (r: u64)
        ensures
            r == self.addr(),
            Self::representable(r),
    ;

    /// Builds the address with integer value `v`.
    fn from_u64(v: u64) -> (r: Self)
        requires
            Self::representable(v),
        ensures
            r.addr() == v,
    ;

    /// Any value below a representable one is representable.
    proof fn lemma_representable_below(v: u64, w: u64)
        requires
            Self::representable(w),
            v <= w,
        ensures
            Self::representable(v),
    ;
}

/// Arithmetic operations common to physical address implementations.
pub trait AddressOps<U> {}

impl PhysicalAddress for u64 {
    open spec fn addr(&self) -> u64 {
        *self
    }

    open spec fn representable(v: u64) -> bool {
        true
    }

    fn to_u64(&self) -> (r: u64) {
        *self
    }

    fn from_u64(v: u64) -> (r: Self) {
        v
    }

    proof fn lemma_representable_below(v: u64, w: u64) {
    }
}

impl AddressOps<u64> for u64 {}

} // verus!
