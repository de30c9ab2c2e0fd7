//! Register layout of the SiFive platform-level interrupt controller (PLIC), and the
//! read-modify-write updates of its interrupt-enable words.
//!
//! The kernel drives context 1 (hart 0, supervisor mode). Each interrupt source has a
//! 32-bit priority register; each context has a bank of 32-bit enable words (one bit per
//! source), a priority threshold and a claim/complete register.
use vstd::prelude::*;

verus! {

/// The PLIC context the kernel uses: hart 0, supervisor mode.
pub const PLIC_CONTEXT: usize = 1;

/// Offset of the first enable word of context 0.
pub const ENABLE_BASE: usize = 0x2000;

/// Distance between the enable banks of two consecutive contexts.
pub const ENABLE_STRIDE: usize = 0x80;

/// Offset of the threshold register of context 0.
pub const CONTEXT_BASE: usize = 0x20_0000;

/// Distance between the threshold registers of two consecutive contexts.
pub const CONTEXT_STRIDE: usize = 0x1000;

/// Offset of the priority register of interrupt source `irq`.
pub fn priority_offset(irq: u32) -> (r: usize)
    requires
        irq < 0x4000_0000,
    ensures
        r == 4 * irq,
{
    (4 * irq) as usize
}

/// Offset of the priority threshold register of the kernel's context.
pub fn threshold_offset() -> (r: usize)
    ensures
        r == CONTEXT_BASE + CONTEXT_STRIDE * PLIC_CONTEXT,
{
    CONTEXT_BASE + CONTEXT_STRIDE * PLIC_CONTEXT
}

/// Offset of the claim/complete register of the kernel's context.
pub fn claim_offset() -> (r: usize)
    ensures
        r == CONTEXT_BASE + CONTEXT_STRIDE * PLIC_CONTEXT + 4,
{
    CONTEXT_BASE + CONTEXT_STRIDE * PLIC_CONTEXT + 4
}

/// Offset of the enable word of the kernel's context that holds the bit of source `irq`.
pub fn enable_offset(irq: u32) -> (r: usize)
    ensures
        r == ENABLE_BASE + ENABLE_STRIDE * PLIC_CONTEXT + 4 * (irq / 32),
{
    ENABLE_BASE + ENABLE_STRIDE * PLIC_CONTEXT + 4 * (irq / 32) as usize
}

/// Whether bit `j` of `w` is set.
pub open spec fn bit_set(w: u32, j: u32) -> bool {
    (w >> j) & 1 == 1
}

/// The bit of source `irq` within its enable word.
pub fn irq_mask(irq: u32) -> (r: u32)
    ensures
        r == 1u32 << (irq % 32),
        forall|j: u32| j < 32 ==> (bit_set(r, j) <==> j == irq % 32),
{
    let r = 1u32 << (irq % 32);
    let s = irq % 32;
    assert(forall|j: u32| j < 32 ==> (bit_set(r, j) <==> j == s)) by (bit_vector)
        requires
            r == 1u32 << s,
            s < 32,
    ;
    r
}

/// The enable word `word` with source `irq` enabled: its own bit set, the others kept.
pub fn enable_word(word: u32, irq: u32) -> (r: u32)
    ensures
        r == word | (1u32 << (irq % 32)),
        forall|j: u32| j < 32 ==> (bit_set(r, j) <==> (j == irq % 32 || bit_set(word, j))),
{
    let m = irq_mask(irq);
    let r = word | m;
    let s = irq % 32;
    assert(forall|j: u32| j < 32 ==> (bit_set(r, j) <==> (j == s || bit_set(word, j)))) by (bit_vector)
        requires
            r == word | m,
            m == 1u32 << s,
            s < 32,
    ;
    r
}

/// The enable word `word` with source `irq` disabled: its own bit cleared, the others kept.
pub fn disable_word(word: u32, irq: u32) -> (r: u32)
    ensures
        r == word & !(1u32 << (irq % 32)),
        forall|j: u32| j < 32 ==> (bit_set(r, j) <==> (j != irq % 32 && bit_set(word, j))),
{
    let m = irq_mask(irq);
    let r = word & !m;
    let s = irq % 32;
    assert(forall|j: u32| j < 32 ==> (bit_set(r, j) <==> (j != s && bit_set(word, j)))) by (bit_vector)
        requires
            r == word & !m,
            m == 1u32 << s,
            s < 32,
    ;
    r
}

/// What a read of the claim register means: `0` is "no interrupt pending", anything else
/// is the claimed source.
pub fn claimed_irq(raw: u32) -> (r: Option<u32>)
    ensures
        raw == 0 ==> r is None,
        raw != 0 ==> r == Some(raw),
{
    if raw == 0 {
        None
    } else {
        Some(raw)
    }
}

/// Disabling a source after enabling it leaves its enable word as disabling alone would.
pub proof fn lemma_disable_undoes_enable(word: u32, irq: u32)
    ensures
        (word | (1u32 << (irq % 32))) & !(1u32 << (irq % 32)) == word & !(1u32 << (irq % 32)),
{
    let s = irq % 32;
    assert((word | (1u32 << s)) & !(1u32 << s) == word & !(1u32 << s)) by (bit_vector);
}

/// Enabling a source that is already enabled leaves its enable word unchanged.
pub proof fn lemma_enable_idempotent(word: u32, irq: u32)
    ensures
        (word | (1u32 << (irq % 32))) | (1u32 << (irq % 32)) == word | (1u32 << (irq % 32)),
{
    let s = irq % 32;
    assert((word | (1u32 << s)) | (1u32 << s) == word | (1u32 << s)) by (bit_vector);
}

/// Enabling or disabling one source never changes the bit of another source in the same
/// word.
pub proof fn lemma_other_sources_untouched(word: u32, irq: u32, j: u32)
    requires
        j < 32,
        j != irq % 32,
    ensures
        bit_set(word | (1u32 << (irq % 32)), j) == bit_set(word, j),
        bit_set(word & !(1u32 << (irq % 32)), j) == bit_set(word, j),
{
    let s = irq % 32;
    assert(bit_set(word | (1u32 << s), j) == bit_set(word, j)) by (bit_vector)
        requires
            j < 32,
            s < 32,
            j != s,
    ;
    assert(bit_set(word & !(1u32 << s), j) == bit_set(word, j)) by (bit_vector)
        requires
            j < 32,
            s < 32,
            j != s,
    ;
}

} // verus!
