//! Bit-field extraction facts.
use vstd::prelude::*;
use vstd::arithmetic::power2::pow2;
use vstd::bits::{low_bits_mask, lemma_u64_shr_is_div, lemma_u64_low_bits_mask_is_mod, lemma_u64_pow2_no_overflow};
use vstd::arithmetic::power2::lemma_pow2_pos;

verus! {

/// The `width`-bit field of `x` starting at bit `shift`.
pub open spec fn field(x: int, shift: nat, width: nat) -> int {
    (x / pow2(shift) as int) % pow2(width) as int
}

/// Shifting right and masking with `width` low bits extracts `field(x, shift, width)`.
pub proof fn lemma_u64_field(x: u64, shift: u64, width: nat)
    requires
        shift < 64,
        width < 64,
    ensures
        (x >> shift) & (low_bits_mask(width) as u64) == field(x as int, shift as nat, width),
{
    lemma_u64_shr_is_div(x, shift);
    lemma_u64_low_bits_mask_is_mod(x >> shift, width);
    lemma_u64_pow2_no_overflow(width);
    lemma_u64_pow2_no_overflow(shift as nat);
    lemma_pow2_pos(shift as nat);
    let y = x >> shift;
    assert(y == x as int / pow2(shift as nat) as int);
    assert(y % (pow2(width) as u64) == (y as int) % (pow2(width) as int));
}

} // verus!
