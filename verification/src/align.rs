//! Power-of-two alignment arithmetic shared by the address types and allocators.
use vstd::prelude::*;
use vstd::arithmetic::power2::{pow2, lemma_pow2_strictly_increases, lemma2_to64};
use vstd::bits::lemma_u64_low_bits_mask_is_mod;
use vstd::bits::low_bits_mask;

verus! {

/// `n` is `2^k` for some natural `k`.
pub open spec fn is_power_of_two(n: nat) -> bool {
    exists|k: nat| pow2(k) == n
}

/// `x` is a multiple of `a`.
pub open spec fn aligned(x: int, a: int) -> bool {
    x % a == 0
}

/// The greatest multiple of `a` not above `x`.
pub open spec fn align_down_spec(x: int, a: int) -> int {
    x - x % a
}

/// The least multiple of `a` not below `x`.
pub open spec fn align_up_spec(x: int, a: int) -> int {
    if x % a == 0 { x } else { x - x % a + a }
}

/// Calls `u64::is_power_of_two`, which std documents as true if and only if the value
/// is `2^k` for some unsigned integer `k`.
#[verifier::external_body]
pub(crate) fn u64_is_power_of_two(n: u64) -> (r: bool)
    ensures
        r == is_power_of_two(n as nat),
{
    n.is_power_of_two()
}

/// Calls `usize::is_power_of_two`, which std documents as true if and only if the value
/// is `2^k` for some unsigned integer `k`.
#[verifier::external_body]
pub(crate) fn usize_is_power_of_two(n: usize) -> (r: bool)
    ensures
        r == is_power_of_two(n as nat),
{
    n.is_power_of_two()
}

/// A power of two that fits in 64 bits has an exponent below 64.
pub proof fn lemma_pow2_exponent(a: u64) -> (k: nat)
    requires
        is_power_of_two(a as nat),
    ensures
        k < 64,
        pow2(k) == a,
        a > 0,
{
    let k = choose|k: nat| pow2(k) == a as nat;
    lemma2_to64();
    if k >= 64 {
        if k > 64 {
            lemma_pow2_strictly_increases(64, k);
        }
        assert(false);
    }
    if k == 0 {
    } else {
        lemma_pow2_strictly_increases(0, k);
    }
    k
}

/// For a power of two `a`, masking with `a - 1` computes `x % a` and masking with its
/// complement computes `x - x % a`.
pub proof fn lemma_mask_ops(x: u64, a: u64)
    requires
        is_power_of_two(a as nat),
    ensures
        a > 0,
        x & ((a - 1) as u64) == x % a,
        x & !((a - 1) as u64) == x - x % a,
{
    let k = lemma_pow2_exponent(a);
    lemma_u64_low_bits_mask_is_mod(x, k);
    assert(low_bits_mask(k) == a - 1);
    let m: u64 = (a - 1) as u64;
    assert((x & !m) + (x & m) == x) by (bit_vector);
}

/// `align_up_spec` yields a multiple of `a` within `[x, x + a)`.
pub proof fn lemma_align_up_props(x: int, a: int)
    requires
        a > 0,
        x >= 0,
    ensures
        align_up_spec(x, a) % a == 0,
        x <= align_up_spec(x, a) < x + a,
        align_down_spec(x, a) % a == 0,
        x - a < align_down_spec(x, a) <= x,
{
    vstd::arithmetic::div_mod::lemma_fundamental_div_mod(x, a);
    let q = x / a;
    assert(x - x % a == a * q);
    vstd::arithmetic::div_mod::lemma_mod_multiples_basic(q, a);
    vstd::arithmetic::div_mod::lemma_mod_multiples_basic(q + 1, a);
    assert(a * q + a == a * (q + 1)) by (nonlinear_arith);
    assert(a * q == q * a) by (nonlinear_arith);
    assert(a * (q + 1) == (q + 1) * a) by (nonlinear_arith);
}

/// Rounds `x` down to a multiple of the power of two `a`.
pub fn align_down_u64(x: u64, a: u64) -> (r: u64)
    requires
        is_power_of_two(a as nat),
    ensures
        r == align_down_spec(x as int, a as int),
{
    proof { lemma_mask_ops(x, a); }
    x & !(a - 1)
}

/// Rounds `x` up to a multiple of the power of two `a`.
pub fn align_up_u64(x: u64, a: u64) -> (r: u64)
    requires
        is_power_of_two(a as nat),
        x + a - 1 <= u64::MAX,
    ensures
        r == align_up_spec(x as int, a as int),
{
    proof { lemma_mask_ops((x + a - 1) as u64, a); lemma_mask_ops(x, a); }
    let y = x + (a - 1);
    proof {
        vstd::arithmetic::div_mod::lemma_fundamental_div_mod(x as int, a as int);
        vstd::arithmetic::div_mod::lemma_fundamental_div_mod(y as int, a as int);
        let q = x as int / a as int;
        let r = x as int % a as int;
        if r == 0 {
            assert(y as int == q * a + (a - 1));
            vstd::arithmetic::div_mod::lemma_mod_multiples_vanish(q, a - 1, a as int);
            vstd::arithmetic::div_mod::lemma_small_mod((a - 1) as nat, a as nat);
        } else {
            assert(y as int == (q + 1) * a + (r - 1)) by (nonlinear_arith)
                requires y == x + a - 1, x == a * q + r;
            vstd::arithmetic::div_mod::lemma_mod_multiples_vanish(q + 1, r - 1, a as int);
            vstd::arithmetic::div_mod::lemma_small_mod((r - 1) as nat, a as nat);
        }
    }
    y & !(a - 1)
}

/// Whether `x` is a multiple of the power of two `a`.
pub fn is_aligned_u64(x: u64, a: u64) -> (r: bool)
    requires
        is_power_of_two(a as nat),
    ensures
        r == aligned(x as int, a as int),
{
    proof { lemma_mask_ops(x, a); }
    x & (a - 1) == 0
}

} // verus!

verus! {

/// Rounds `x` down to a multiple of the power of two `a`.
pub fn align_down_usize(x: usize, a: usize) -> (r: usize)
    requires
        is_power_of_two(a as nat),
    ensures
        r == align_down_spec(x as int, a as int),
{
    let r = align_down_u64(x as u64, a as u64);
    proof { lemma_mask_ops(x as u64, a as u64); lemma_align_up_props(x as int, a as int); }
    r as usize
}

/// Rounds `x` up to a multiple of the power of two `a`.
pub fn align_up_usize(x: usize, a: usize) -> (r: usize)
    requires
        is_power_of_two(a as nat),
        x + a - 1 <= usize::MAX,
    ensures
        r == align_up_spec(x as int, a as int),
{
    let r = align_up_u64(x as u64, a as u64);
    proof { lemma_mask_ops(x as u64, a as u64); lemma_align_up_props(x as int, a as int); }
    r as usize
}

/// Whether `x` is a multiple of the power of two `a`.
pub fn is_aligned_usize(x: usize, a: usize) -> (r: bool)
    requires
        is_power_of_two(a as nat),
    ensures
        r == aligned(x as int, a as int),
{
    is_aligned_u64(x as u64, a as u64)
}

/// A multiple of a power of two `a` leaves room for `a - 1` more below `u64::MAX + 1`.
pub proof fn lemma_aligned_headroom_u64(x: u64, a: u64)
    requires
        is_power_of_two(a as nat),
        aligned(x as int, a as int),
    ensures
        x + a - 1 <= u64::MAX,
{
    lemma_mask_ops(x, a);
    let m: u64 = (a - 1) as u64;
    assert(x & m == 0 ==> x + m == x | m) by (bit_vector);
}

/// A multiple of a power of two `a` leaves room for `a - 1` more below `usize::MAX + 1`.
pub proof fn lemma_aligned_headroom_usize(x: usize, a: usize)
    requires
        is_power_of_two(a as nat),
        aligned(x as int, a as int),
    ensures
        x + a - 1 <= usize::MAX,
{
    lemma_mask_ops(x as u64, a as u64);
    let m: usize = (a - 1) as usize;
    assert(x & m == (x as u64 & (m as u64)) as usize) by (bit_vector);
    assert(x & m == 0 ==> x + m == x | m) by (bit_vector);
}

} // verus!

verus! {

/// A numeric type that can be aligned to a boundary.
pub trait Align<U>: Sized {
    /// The alignment is one that the operations accept.
    spec fn align_req(align: U) -> bool;

    /// Rounding `self` up to `align` stays representable.
    spec fn align_up_req(&self, align: U) -> bool;

    /// Aligns address upwards to the specified bound.
    ///
    /// Returns the first address greater or equal than `addr` with alignment `align`.
    fn align_up(&self, align: U) -> Self
        requires
            Self::align_req(align),
            self.align_up_req(align),
    ;

    /// Aligns address downwards to the specified bound.
    ///
    /// Returns the first address lower or equal than `addr` with alignment `align`.
    fn align_down(&self, align: U) -> Self
        requires
            Self::align_req(align),
    ;

    /// Checks whether the address has the specified alignment.
    fn is_aligned(&self, align: U) -> bool
        requires
            Self::align_req(align),
    ;
}

impl Align<usize> for usize {
    open spec fn align_req(align: usize) -> bool {
        is_power_of_two(align as nat)
    }

    open spec fn align_up_req(&self, align: usize) -> bool {
        *self + align - 1 <= usize::MAX
    }

    fn align_up(&self, align: usize) -> (r: usize)
        ensures
            r == align_up_spec(*self as int, align as int),
    {
        align_up_usize(*self, align)
    }

    fn align_down(&self, align: usize) -> (r: usize)
        ensures
            r == align_down_spec(*self as int, align as int),
    {
        align_down_usize(*self, align)
    }

    fn is_aligned(&self, align: usize) -> (r: bool)
        ensures
            r == aligned(*self as int, align as int),
    {
        is_aligned_usize(*self, align)
    }
}

impl Align<u64> for u64 {
    open spec fn align_req(align: u64) -> bool {
        is_power_of_two(align as nat)
    }

    open spec fn align_up_req(&self, align: u64) -> bool {
        *self + align - 1 <= u64::MAX
    }

    fn align_up(&self, align: u64) -> (r: u64)
        ensures
            r == align_up_spec(*self as int, align as int),
    {
        align_up_u64(*self, align)
    }

    fn align_down(&self, align: u64) -> (r: u64)
        ensures
            r == align_down_spec(*self as int, align as int),
    {
        align_down_u64(*self, align)
    }

    fn is_aligned(&self, align: u64) -> (r: bool)
        ensures
            r == aligned(*self as int, align as int),
    {
        is_aligned_u64(*self, align)
    }
}

} // verus!
