//! Physical and virtual addresses manipulation (Sv48).
use vstd::prelude::*;
use vstd::arithmetic::power2::{pow2, lemma2_to64, lemma2_to64_rest};
use vstd::bits::{low_bits_mask, lemma_low_bits_mask_values};
use vstd::std_specs::ops::{AddSpecImpl, SubSpecImpl};
use crate::bits::{field, lemma_u64_field};
use crate::align::{Align, is_power_of_two, aligned, align_up_spec, align_down_spec, align_up_u64, align_down_u64, is_aligned_u64, align_up_usize, align_down_usize, is_aligned_usize, lemma_mask_ops};
use crate::kmm::{PhysicalAddress, AddressOps};

verus! {

/// Number of bits that an address needs to be shifted to the left to obtain its page number.
pub const PAGE_SHIFT: u64 = 12;

/// Size of a page in bytes.
pub const PAGE_SIZE: u64 = 4096;

/// Largest valid physical address: bits 56 to 63 must be zero.
pub const PHYS_ADDR_MAX: u64 = 0x00ff_ffff_ffff_ffff;

/// Error type returned by failed address conversions or operations on invalid addresses.
#[derive(Debug, Clone, Copy, PartialEq, Eq, Structural)]
pub struct InvalidAddrError;

/// A 64-bit physical memory address.
///
/// The address is 56 bits wide, encoded in a 64-bit word whose upper bits are zero.
#[derive(Clone, Copy, PartialEq, Eq, Structural)]
pub struct PhysAddr(u64);

impl View for PhysAddr {
    type V = u64;

    closed spec fn view(&self) -> u64 {
        self.0
    }
}

impl PhysAddr {
    #[verifier::type_invariant]
    spec fn valid(self) -> bool {
        self.0 <= PHYS_ADDR_MAX
    }

    /// Creates a new physical address.
    ///
    /// `addr` must not contain any data in bits 56 to 63.
    pub fn new(addr: u64) -> (r: Self)
        requires
            addr <= PHYS_ADDR_MAX,
        ensures
            r@ == addr,
    {
        Self(addr)
    }

    /// Tries to create a new physical address.
    ///
    /// Returns an error if `addr` has data in bits 56 to 63.
    pub fn try_new(addr: u64) -> (r: Result<Self, InvalidAddrError>)
        ensures
            addr <= PHYS_ADDR_MAX ==> (r matches Ok(a) && a@ == addr),
            addr > PHYS_ADDR_MAX ==> r == Err::<Self, InvalidAddrError>(InvalidAddrError),
    {
        assert(addr >> 56 == 0 <==> addr <= 0x00ff_ffff_ffff_ffff) by (bit_vector);
        if addr >> 56 != 0 {
            Err(InvalidAddrError)
        } else {
            Ok(Self(addr))
        }
    }

    /// Creates a new physical address throwing away the upper bits of the address.
    pub fn new_truncated(addr: u64) -> (r: Self)
        ensures
            r@ == addr % 0x0100_0000_0000_0000,
    {
        assert((addr << 8) >> 8 == addr % 0x0100_0000_0000_0000) by (bit_vector);
        Self((addr << 8) >> 8)
    }

    /// Returns the integer representation of this address.
    pub fn data(self) -> (r: u64)
        ensures
            r == self@,
            r <= PHYS_ADDR_MAX,
    {
        proof { use_type_invariant(&self); }
        self.0
    }

    /// Returns the lowest 12 bits of this address.
    pub fn page_offset(self) -> (r: u64)
        ensures
            r == self@ % 4096,
    {
        proof {
            vstd::bits::lemma_u64_low_bits_mask_is_mod(self.0, 12);
            lemma_low_bits_mask_values();
            lemma2_to64();
        }
        self.0 & 0xfff
    }

    /// Returns the full page number of this address.
    pub fn page_index(self) -> (r: u64)
        ensures
            r == (self@ / 4096) % 0x1000_0000_0000,
    {
        proof {
            lemma_u64_field(self.0, 12, 44);
            lemma2_to64();
            lemma2_to64_rest();
        }
        (self.0 >> PAGE_SHIFT) & 0xfff_ffff_ffff
    }

    /// Returns the 9-bit level 0 page table index.
    pub fn ppn0(self) -> (r: u64)
        ensures
            r == (self@ / 0x1000) % 512,
    {
        proof {
            lemma_u64_field(self.0, 12, 9);
            lemma_low_bits_mask_values();
            lemma2_to64();
        }
        (self.0 >> 12) & 0x1ff
    }

    /// Returns the 9-bit level 1 page table index.
    pub fn ppn1(self) -> (r: u64)
        ensures
            r == (self@ / 0x20_0000) % 512,
    {
        proof {
            lemma_u64_field(self.0, 21, 9);
            lemma_low_bits_mask_values();
            lemma2_to64();
        }
        (self.0 >> 21) & 0x1ff
    }

    /// Returns the 9-bit level 2 page table index.
    pub fn ppn2(self) -> (r: u64)
        ensures
            r == (self@ / 0x4000_0000) % 512,
    {
        proof {
            lemma_u64_field(self.0, 30, 9);
            lemma_low_bits_mask_values();
            lemma2_to64();
        }
        (self.0 >> 30) & 0x1ff
    }

    /// Returns the 17-bit level 3 page table index.
    pub fn ppn3(self) -> (r: u64)
        ensures
            r == (self@ / 0x80_0000_0000) % 0x2_0000,
    {
        proof {
            lemma_u64_field(self.0, 39, 17);
            lemma_low_bits_mask_values();
            lemma2_to64();
            lemma2_to64_rest();
        }
        (self.0 >> 39) & 0x1ffff
    }
}

} // verus!

verus! {

/// Sign-extends bit 47 of `a` into bits 48 to 63.
pub open spec fn sign_extend48(a: u64) -> u64 {
    if (a / 0x8000_0000_0000) % 2 == 1 {
        (a % 0x1_0000_0000_0000 + 0xffff_0000_0000_0000) as u64
    } else {
        (a % 0x1_0000_0000_0000) as u64
    }
}

/// Bits 47 to 63 of `a` are all zero or all one.
pub open spec fn canonical48(a: u64) -> bool {
    a / 0x8000_0000_0000 == 0 || a / 0x8000_0000_0000 == 0x1ffff
}

/// Computes `sign_extend48`.
fn sign_extend48_exec(a: u64) -> (r: u64)
    ensures
        r == sign_extend48(a),
{
    proof {
        vstd::bits::lemma_u64_shr_is_div(a, 47);
        lemma2_to64_rest();
    }
    assert(a & 0x8000_0000_0000 != 0 <==> ((a >> 47) % 2 == 1)) by (bit_vector);
    if a & 0x8000_0000_0000 != 0 {
        assert(a | 0xffff_0000_0000_0000 == a % 0x1_0000_0000_0000 + 0xffff_0000_0000_0000)
            by (bit_vector);
        a | 0xffff_0000_0000_0000
    } else {
        assert(a & 0x0000_ffff_ffff_ffff == a % 0x1_0000_0000_0000) by (bit_vector);
        a & 0x0000_ffff_ffff_ffff
    }
}

/// A virtual memory address.
///
/// Sv48 virtual addresses are 64-bit wide but only the lower 48 bits are used by the
/// MMU; bits 63–48 must all be equal to bit 47. The safe constructors ensure this.
#[derive(Clone, Copy, PartialEq, Eq, Structural)]
pub struct VirtAddr(usize);

impl View for VirtAddr {
    type V = usize;

    closed spec fn view(&self) -> usize {
        self.0
    }
}

impl VirtAddr {
    /// Creates a new virtual address.
    ///
    /// `addr` must be properly sign-extended, or have bit 47 set and all upper bits clear
    /// (then it is sign-extended).
    pub fn new(addr: usize) -> (r: Self)
        requires
            canonical48(addr as u64) || (addr as u64) / 0x8000_0000_0000 == 1,
        ensures
            canonical48(addr as u64) ==> r@ == addr,
            (addr as u64) / 0x8000_0000_0000 == 1 ==> r@ == sign_extend48(addr as u64) as usize,
    {
        match Self::try_new(addr) {
            Ok(a) => a,
            Err(_) => {
                proof { assert(false); }
                Self(addr)
            },
        }
    }

    /// Tries to create a new virtual address.
    ///
    /// Succeeds if the upper bits are either a correct sign extension or all zero (then
    /// the address is sign-extended). Else, an error is returned.
    pub fn try_new(addr: usize) -> (r: Result<Self, InvalidAddrError>)
        ensures
            canonical48(addr as u64) ==> (r matches Ok(a) && a@ == addr),
            (addr as u64) / 0x8000_0000_0000 == 1 ==> (r matches Ok(a) && a@ == sign_extend48(
                addr as u64,
            ) as usize),
            !canonical48(addr as u64) && (addr as u64) / 0x8000_0000_0000 != 1 ==> r
                == Err::<Self, InvalidAddrError>(InvalidAddrError),
    {
        let a = addr as u64;
        proof {
            vstd::bits::lemma_u64_shr_is_div(a, 47);
            lemma2_to64_rest();
        }
        let hi = a >> 47;
        if hi == 0 || hi == 0x1ffff {
            Ok(Self(addr))
        } else if hi == 1 {
            Ok(Self::new_truncated(addr))
        } else {
            Err(InvalidAddrError)
        }
    }

    /// Creates a new virtual address, throwing away the upper bits of the address.
    ///
    /// Sign extension makes the address canonical: bits 63–48 are overwritten with bit 47.
    pub fn new_truncated(addr: usize) -> (r: Self)
        ensures
            r@ == sign_extend48(addr as u64) as usize,
    {
        Self(sign_extend48_exec(addr as u64) as usize)
    }

    /// Returns the integer representation of this address.
    pub fn data(self) -> (r: usize)
        ensures
            r == self@,
    {
        self.0
    }

    /// Returns the lowest 12 bits of this address.
    pub fn page_offset(self) -> (r: usize)
        ensures
            r == self@ % 4096,
    {
        let a = self.0 as u64;
        proof {
            vstd::bits::lemma_u64_low_bits_mask_is_mod(a, 12);
            lemma_low_bits_mask_values();
            lemma2_to64();
        }
        (a & 0xfff) as usize
    }

    /// Returns the full page number of this address.
    pub fn page_index(self) -> (r: usize)
        ensures
            r == (self@ as int / 4096) % 0x10_0000_0000,
    {
        let a = self.0 as u64;
        proof {
            lemma_u64_field(a, 12, 36);
            lemma2_to64();
            lemma2_to64_rest();
        }
        ((a >> PAGE_SHIFT) & 0xf_ffff_ffff) as usize
    }

    /// Returns the 9-bit level 0 page table index.
    pub fn vpn0(self) -> (r: usize)
        ensures
            r == (self@ / 0x1000) % 512,
    {
        let a = self.0 as u64;
        proof {
            lemma_u64_field(a, 12, 9);
            lemma_low_bits_mask_values();
            lemma2_to64();
        }
        ((a >> 12) & 0x1ff) as usize
    }

    /// Returns the 9-bit level 1 page table index.
    pub fn vpn1(self) -> (r: usize)
        ensures
            r == (self@ / 0x20_0000) % 512,
    {
        let a = self.0 as u64;
        proof {
            lemma_u64_field(a, 21, 9);
            lemma_low_bits_mask_values();
            lemma2_to64();
        }
        ((a >> 21) & 0x1ff) as usize
    }

    /// Returns the 9-bit level 2 page table index.
    pub fn vpn2(self) -> (r: usize)
        ensures
            r == (self@ / 0x4000_0000) % 512,
    {
        let a = self.0 as u64;
        proof {
            lemma_u64_field(a, 30, 9);
            lemma_low_bits_mask_values();
            lemma2_to64();
        }
        ((a >> 30) & 0x1ff) as usize
    }

    /// Returns the 9-bit level 3 page table index.
    pub fn vpn3(self) -> (r: usize)
        ensures
            r == (self@ as int / 0x80_0000_0000) % 512,
    {
        let a = self.0 as u64;
        proof {
            lemma_u64_field(a, 39, 9);
            lemma_low_bits_mask_values();
            lemma2_to64();
            lemma2_to64_rest();
        }
        ((a >> 39) & 0x1ff) as usize
    }
}

} // verus!

verus! {

impl Align<u64> for PhysAddr {
    open spec fn align_req(align: u64) -> bool {
        is_power_of_two(align as nat)
    }

    /// The rounded-up address stays a valid physical address.
    open spec fn align_up_req(&self, align: u64) -> bool {
        self@ + align - 1 <= u64::MAX && align_up_spec(self@ as int, align as int) <= PHYS_ADDR_MAX
    }

    fn align_up(&self, align: u64) -> (r: PhysAddr)
        ensures
            r@ == align_up_spec(self@ as int, align as int),
    {
        Self::new(align_up_u64(self.0, align))
    }

    fn align_down(&self, align: u64) -> (r: PhysAddr)
        ensures
            r@ == align_down_spec(self@ as int, align as int),
    {
        proof {
            use_type_invariant(self);
            lemma_mask_ops(self.0, align);
        }
        Self::new(align_down_u64(self.0, align))
    }

    fn is_aligned(&self, align: u64) -> (r: bool)
        ensures
            r == aligned(self@ as int, align as int),
    {
        is_aligned_u64(self.0, align)
    }
}

impl Align<usize> for VirtAddr {
    open spec fn align_req(align: usize) -> bool {
        is_power_of_two(align as nat)
    }

    /// The rounded-up address is accepted by `VirtAddr::new`.
    open spec fn align_up_req(&self, align: usize) -> bool {
        &&& self@ + align - 1 <= usize::MAX
        &&& canonical48(align_up_spec(self@ as int, align as int) as u64) || (align_up_spec(
            self@ as int,
            align as int,
        ) as u64) / 0x8000_0000_0000 == 1
    }

    fn align_up(&self, align: usize) -> (r: VirtAddr)
        ensures
            canonical48(align_up_spec(self@ as int, align as int) as u64) ==> r@ == align_up_spec(
                self@ as int,
                align as int,
            ),
    {
        Self::new(align_up_usize(self.0, align))
    }

    /// Rounds down; the result must be a canonical address.
    fn align_down(&self, align: usize) -> (r: VirtAddr)
        ensures
            canonical48(align_down_spec(self@ as int, align as int) as u64) ==> r@
                == align_down_spec(self@ as int, align as int),
    {
        let v = align_down_usize(self.0, align);
        match Self::try_new(v) {
            Ok(a) => a,
            Err(_) => Self(v),
        }
    }

    fn is_aligned(&self, align: usize) -> (r: bool)
        ensures
            r == aligned(self@ as int, align as int),
    {
        is_aligned_usize(self.0, align)
    }
}

impl From<PhysAddr> for u64 {
    fn from(pa: PhysAddr) -> (r: u64)
        ensures
            r == pa@,
    {
        pa.0
    }
}

impl vstd::std_specs::convert::FromSpecImpl<PhysAddr> for u64 {
    open spec fn obeys_from_spec() -> bool {
        false
    }

    open spec fn from_spec(v: PhysAddr) -> u64 {
        v@
    }
}

impl From<VirtAddr> for usize {
    fn from(va: VirtAddr) -> (r: usize)
        ensures
            r == va@,
    {
        va.0
    }
}

impl vstd::std_specs::convert::FromSpecImpl<VirtAddr> for usize {
    open spec fn obeys_from_spec() -> bool {
        false
    }

    open spec fn from_spec(v: VirtAddr) -> usize {
        v@
    }
}

impl core::ops::Add<u64> for PhysAddr {
    type Output = PhysAddr;

    fn add(self, rhs: u64) -> (r: PhysAddr)
        ensures
            r@ == self@ + rhs,
    {
        Self::new(self.0 + rhs)
    }
}

impl AddSpecImpl<u64> for PhysAddr {
    open spec fn obeys_add_spec() -> bool {
        false
    }

    open spec fn add_req(self, rhs: u64) -> bool {
        self@ + rhs <= PHYS_ADDR_MAX
    }

    open spec fn add_spec(self, rhs: u64) -> PhysAddr {
        self
    }
}

impl core::ops::Add for PhysAddr {
    type Output = PhysAddr;

    fn add(self, rhs: PhysAddr) -> (r: PhysAddr)
        ensures
            r@ == self@ + rhs@,
    {
        Self::new(self.0 + rhs.0)
    }
}

impl AddSpecImpl for PhysAddr {
    open spec fn obeys_add_spec() -> bool {
        false
    }

    open spec fn add_req(self, rhs: PhysAddr) -> bool {
        self@ + rhs@ <= PHYS_ADDR_MAX
    }

    open spec fn add_spec(self, rhs: PhysAddr) -> PhysAddr {
        self
    }
}

impl core::ops::Sub<u64> for PhysAddr {
    type Output = PhysAddr;

    fn sub(self, rhs: u64) -> (r: PhysAddr)
        ensures
            r@ == self@ - rhs,
    {
        proof { use_type_invariant(&self); }
        Self::new(self.0 - rhs)
    }
}

impl SubSpecImpl<u64> for PhysAddr {
    open spec fn obeys_sub_spec() -> bool {
        false
    }

    open spec fn sub_req(self, rhs: u64) -> bool {
        self@ >= rhs
    }

    open spec fn sub_spec(self, rhs: u64) -> PhysAddr {
        self
    }
}

impl core::ops::Sub for PhysAddr {
    type Output = PhysAddr;

    fn sub(self, rhs: PhysAddr) -> (r: PhysAddr)
        ensures
            r@ == self@ - rhs@,
    {
        proof { use_type_invariant(&self); }
        Self::new(self.0 - rhs.0)
    }
}

impl SubSpecImpl for PhysAddr {
    open spec fn obeys_sub_spec() -> bool {
        false
    }

    open spec fn sub_req(self, rhs: PhysAddr) -> bool {
        self@ >= rhs@
    }

    open spec fn sub_spec(self, rhs: PhysAddr) -> PhysAddr {
        self
    }
}

impl PhysicalAddress for PhysAddr {
    open spec fn addr(&self) -> u64 {
        self@
    }

    open spec fn representable(v: u64) -> bool {
        v <= PHYS_ADDR_MAX
    }

    fn to_u64(&self) -> (r: u64) {
        proof { use_type_invariant(self); }
        self.0
    }

    fn from_u64(v: u64) -> (r: Self) {
        Self::new(v)
    }

    proof fn lemma_representable_below(v: u64, w: u64) {
    }
}

impl AddressOps<u64> for PhysAddr {}

} // verus!
