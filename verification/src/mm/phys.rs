//! Physical memory addresses as plain integers.
use vstd::prelude::*;
use vstd::std_specs::ops::{AddSpecImpl, SubSpecImpl};

verus! {

/// A physical memory address.
#[derive(Debug, Clone, Copy, PartialEq, Eq, Structural)]
pub struct PhysicalAddress(usize);

impl View for PhysicalAddress {
    type V = usize;

    open spec fn view(&self) -> usize {
        self.value()
    }
}

impl PhysicalAddress {
    /// The address as an integer.
    pub closed spec fn value(&self) -> usize {
        self.0
    }

    /// The address whose integer value is `v`.
    pub closed spec fn from_usize(v: usize) -> PhysicalAddress {
        PhysicalAddress(v)
    }

    /// Interprets a pointer-sized integer as a physical address.
    pub fn new(addr: usize) -> (r: Self)
        ensures
            r@ == addr,
    {
        PhysicalAddress(addr)
    }
}

impl From<usize> for PhysicalAddress {
    fn from(v: usize) -> (r: Self)
        ensures
            r@ == v,
    {
        PhysicalAddress(v)
    }
}

impl vstd::std_specs::convert::FromSpecImpl<usize> for PhysicalAddress {
    open spec fn obeys_from_spec() -> bool {
        false
    }

    open spec fn from_spec(v: usize) -> PhysicalAddress {
        PhysicalAddress::from_usize(v)
    }
}

impl From<PhysicalAddress> for usize {
    fn from(addr: PhysicalAddress) -> (r: usize)
        ensures
            r == addr@,
    {
        addr.0
    }
}

impl vstd::std_specs::convert::FromSpecImpl<PhysicalAddress> for usize {
    open spec fn obeys_from_spec() -> bool {
        false
    }

    open spec fn from_spec(v: PhysicalAddress) -> usize {
        v@
    }
}

impl core::ops::Add for PhysicalAddress {
    type Output = PhysicalAddress;

    fn add(self, rhs: PhysicalAddress) -> (r: PhysicalAddress)
        ensures
            r@ == self@ + rhs@,
    {
        PhysicalAddress(self.0 + rhs.0)
    }
}

impl AddSpecImpl for PhysicalAddress {
    open spec fn obeys_add_spec() -> bool {
        false
    }

    open spec fn add_req(self, rhs: PhysicalAddress) -> bool {
        self@ + rhs@ <= usize::MAX
    }

    open spec fn add_spec(self, rhs: PhysicalAddress) -> PhysicalAddress {
        self
    }
}

impl core::ops::Add<usize> for PhysicalAddress {
    type Output = PhysicalAddress;

    fn add(self, rhs: usize) -> (r: PhysicalAddress)
        ensures
            r@ == self@ + rhs,
    {
        PhysicalAddress(self.0 + rhs)
    }
}

impl AddSpecImpl<usize> for PhysicalAddress {
    open spec fn obeys_add_spec() -> bool {
        false
    }

    open spec fn add_req(self, rhs: usize) -> bool {
        self@ + rhs <= usize::MAX
    }

    open spec fn add_spec(self, rhs: usize) -> PhysicalAddress {
        self
    }
}

impl core::ops::Sub for PhysicalAddress {
    type Output = PhysicalAddress;

    fn sub(self, rhs: PhysicalAddress) -> (r: PhysicalAddress)
        ensures
            r@ == self@ - rhs@,
    {
        PhysicalAddress(self.0 - rhs.0)
    }
}

impl SubSpecImpl for PhysicalAddress {
    open spec fn obeys_sub_spec() -> bool {
        false
    }

    open spec fn sub_req(self, rhs: PhysicalAddress) -> bool {
        self@ >= rhs@
    }

    open spec fn sub_spec(self, rhs: PhysicalAddress) -> PhysicalAddress {
        self
    }
}

impl core::ops::Sub<usize> for PhysicalAddress {
    type Output = PhysicalAddress;

    fn sub(self, rhs: usize) -> (r: PhysicalAddress)
        ensures
            r@ == self@ - rhs,
    {
        PhysicalAddress(self.0 - rhs)
    }
}

impl SubSpecImpl<usize> for PhysicalAddress {
    open spec fn obeys_sub_spec() -> bool {
        false
    }

    open spec fn sub_req(self, rhs: usize) -> bool {
        self@ >= rhs
    }

    open spec fn sub_spec(self, rhs: usize) -> PhysicalAddress {
        self
    }
}

/// Calls `String::push`, which std documents as appending the given `char` to the end of
/// the string.
#[verifier::external_body]
fn push_char(s: &mut String, c: char)
    ensures
        final(s)@ == old(s)@.push(c),
{
    s.push(c);
}

/// The lower-case hexadecimal digit for the 4-bit value `d`.
pub open spec fn hex_char(d: u64) -> char {
    if d < 10 {
        (48 + d) as char
    } else {
        (87 + d) as char
    }
}

/// Digit `k` (most significant first) of the 16-digit hexadecimal rendering of `v`.
pub open spec fn hex_digit(v: u64, k: int) -> char {
    hex_char((v >> ((15 - k) * 4) as u64) & 0xf)
}

impl PhysicalAddress {
    /// The address as a zero-padded, 16-digit lower-case hexadecimal string.
    pub fn to_hex_string(&self) -> (r: String)
        ensures
            r@ == Seq::new(16, |k: int| hex_digit(self@ as u64, k)),
    {
        let v = self.0 as u64;
        let mut out = String::new();
        let mut i: usize = 0;
        while i < 16
            invariant
                i <= 16,
                v == self@ as u64,
                out@ == Seq::new(i as nat, |k: int| hex_digit(v, k)),
            decreases 16 - i,
        {
            let shift = ((15 - i) * 4) as u64;
            let d = (v >> shift) & 0xf;
            assert(d < 16) by (bit_vector)
                requires
                    d == (v >> shift) & 0xf,
            ;
            let c = if d < 10 {
                ((48 + d) as u8) as char
            } else {
                ((87 + d) as u8) as char
            };
            assert(c == hex_digit(v, i as int));
            push_char(&mut out, c);
            i += 1;
            proof {
                assert(out@ =~= Seq::new(i as nat, |k: int| hex_digit(v, k)));
            }
        }
        out
    }
}

} // verus!
