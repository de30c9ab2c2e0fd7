//! Supervisor control and status registers: the meaning of their bits.
//!
//! Reading or writing a CSR is a single instruction, performed by the caller; the functions
//! here turn the raw register value into typed flags and fields, and back.
use vstd::prelude::*;

verus! {

/// Flags for the `sstatus` register.
#[derive(Debug, Clone, Copy, PartialEq, Eq, Structural)]
pub struct SstatusFlags {
    bits: u64,
}

impl SstatusFlags {
    /// S-Mode interrupt enable.
    pub const SIE: u64 = 0x2;
    /// S-Mode previous interrupt enable.
    pub const SPIE: u64 = 0x20;
    /// U-Mode big endian memory access.
    pub const UBE: u64 = 0x40;
    /// S-Mode previous privilege level.
    pub const SPP: u64 = 0x100;
    /// Floating point unit state.
    pub const FS: u64 = 0x6000;
    /// U-Mode extension state.
    pub const XS: u64 = 0x1_8000;
    /// Permit S-Mode user memory access.
    pub const SUM: u64 = 0x4_0000;
    /// Make executable readable.
    pub const MXR: u64 = 0x8_0000;
    /// Value of XLEN for U-Mode.
    pub const UXL: u64 = 0x3_0000_0000;
    /// Dirty state presence.
    pub const SD: u64 = 0x8000_0000_0000_0000;
    /// Every defined flag.
    pub const ALL: u64 = 0x8000_0003_000d_e162;

    /// The raw bits.
    pub closed spec fn view_bits(self) -> u64 {
        self.bits
    }

    /// Builds flags from raw bits, dropping the bits that are not defined flags.
    pub fn from_bits_truncate(bits: u64) -> (r: Self)
        ensures
            r.view_bits() == bits & SstatusFlags::ALL,
    {
        SstatusFlags { bits: bits & Self::ALL }
    }

    /// Returns the raw bits.
    pub fn bits(&self) -> (r: u64)
        ensures
            r == self.view_bits(),
    {
        self.bits
    }

    /// Whether all bits of `flag` are set.
    pub fn contains(&self, flag: u64) -> (r: bool)
        ensures
            r == (self.view_bits() & flag == flag),
    {
        self.bits & flag == flag
    }
}

/// The `sstatus` register keeps track of the processor's current operating state.
#[derive(Debug)]
pub struct Sstatus;

impl Sstatus {
    /// Interprets the raw content of `sstatus`: its defined flags.
    pub fn read(raw: u64) -> (r: SstatusFlags)
        ensures
            r.view_bits() == raw & SstatusFlags::ALL,
    {
        SstatusFlags::from_bits_truncate(raw)
    }
}

/// Flags for the `sie`/`sip` registers.
#[derive(Debug, Clone, Copy, PartialEq, Eq, Structural)]
pub struct SiFlags {
    bits: u64,
}

impl SiFlags {
    /// S-Mode software interrupt enable.
    pub const SSIE: u64 = 0x2;
    /// S-Mode timer interrupt enable.
    pub const STIE: u64 = 0x20;
    /// S-Mode external interrupt enable.
    pub const SEIE: u64 = 0x200;
    /// Every defined flag.
    pub const ALL: u64 = 0x222;

    /// The raw bits.
    pub closed spec fn view_bits(self) -> u64 {
        self.bits
    }

    /// Builds flags from raw bits, dropping the bits that are not defined flags.
    pub fn from_bits_truncate(bits: u64) -> (r: Self)
        ensures
            r.view_bits() == bits & SiFlags::ALL,
    {
        SiFlags { bits: bits & Self::ALL }
    }

    /// Returns the raw bits.
    pub fn bits(&self) -> (r: u64)
        ensures
            r == self.view_bits(),
    {
        self.bits
    }

    /// Whether all bits of `flag` are set.
    pub fn contains(&self, flag: u64) -> (r: bool)
        ensures
            r == (self.view_bits() & flag == flag),
    {
        self.bits & flag == flag
    }

    /// These flags with the bits of `flag` set.
    pub fn insert(&mut self, flag: u64)
        ensures
            final(self).view_bits() == (old(self).view_bits() | (flag & SiFlags::ALL)),
    {
        self.bits = self.bits | (flag & Self::ALL);
    }

    /// These flags with the bits of `flag` cleared.
    pub fn remove(&mut self, flag: u64)
        ensures
            final(self).view_bits() == (old(self).view_bits() & !flag),
    {
        self.bits = self.bits & !flag;
    }
}

/// Interrupt flags from a raw `sie` or `sip` value.
pub open spec fn si_decode(raw: u64) -> u64 {
    raw & SiFlags::ALL
}

/// The `sie` register contains interrupt enable bits.
#[derive(Debug)]
pub struct Sie;

impl Sie {
    /// Interprets the raw content of `sie`: its defined flags.
    pub fn read(raw: u64) -> (r: SiFlags)
        ensures
            r.view_bits() == si_decode(raw),
    {
        SiFlags::from_bits_truncate(raw)
    }

    /// The raw value that writing `flags` stores in `sie`.
    pub fn write(flags: SiFlags) -> (r: u64)
        ensures
            r == flags.view_bits(),
    {
        flags.bits()
    }

    /// The raw value to store in `sie` after applying `f` to the flags of its current raw
    /// content `raw`.
    pub fn update<F: FnOnce(SiFlags) -> SiFlags>(raw: u64, f: F) -> (r: u64)
        requires
            forall|v: SiFlags| v.view_bits() == si_decode(raw) ==> f.requires((v,)),
        ensures
            exists|v: SiFlags, w: SiFlags| v.view_bits() == si_decode(raw) && f.ensures((v,), w) && r == w.view_bits(),
    {
        let v = Self::read(raw);
        let w = f(v);
        Self::write(w)
    }
}

/// The `sip` register contains interrupt pending bits.
#[derive(Debug)]
pub struct Sip;

impl Sip {
    /// Interprets the raw content of `sip`: its defined flags.
    pub fn read(raw: u64) -> (r: SiFlags)
        ensures
            r.view_bits() == si_decode(raw),
    {
        SiFlags::from_bits_truncate(raw)
    }

    /// The raw value that writing `flags` stores in `sip`.
    pub fn write(flags: SiFlags) -> (r: u64)
        ensures
            r == flags.view_bits(),
    {
        flags.bits()
    }

    /// The raw value to store in `sip` after applying `f` to the flags of its current raw
    /// content `raw`.
    pub fn update<F: FnOnce(SiFlags) -> SiFlags>(raw: u64, f: F) -> (r: u64)
        requires
            forall|v: SiFlags| v.view_bits() == si_decode(raw) ==> f.requires((v,)),
        ensures
            exists|v: SiFlags, w: SiFlags| v.view_bits() == si_decode(raw) && f.ensures((v,), w) && r == w.view_bits(),
    {
        let v = Self::read(raw);
        let w = f(v);
        Self::write(w)
    }
}

/// Virtual addressing modes supported by the RISC-V architectures.
#[derive(Debug, Clone, Copy, PartialEq, Eq, Structural)]
pub enum SatpMode {
    /// `Bare` translation mode (`virt` == `phys`).
    Bare,
    /// `Sv32` translation scheme (2-level page table).
    Sv32,
    /// `Sv39` translation scheme (3-level page table).
    Sv39,
    /// `Sv48` translation scheme (4-level page table).
    Sv48,
}

/// The encoding of each mode in the `MODE` field of `satp`.
pub open spec fn mode_code(m: SatpMode) -> u64 {
    match m {
        SatpMode::Bare => 0,
        SatpMode::Sv32 => 1,
        SatpMode::Sv39 => 8,
        SatpMode::Sv48 => 9,
    }
}

/// Whether `v` encodes a translation mode.
pub open spec fn is_mode_code(v: u64) -> bool {
    v == 0 || v == 1 || v == 8 || v == 9
}

impl SatpMode {
    /// The mode encoded by `v`.
    pub fn from_code(v: u64) -> (r: SatpMode)
        requires
            is_mode_code(v),
        ensures
            mode_code(r) == v,
    {
        if v == 0 {
            SatpMode::Bare
        } else if v == 1 {
            SatpMode::Sv32
        } else if v == 8 {
            SatpMode::Sv39
        } else {
            SatpMode::Sv48
        }
    }

    /// The encoding of this mode.
    pub fn code(self) -> (r: u64)
        ensures
            r == mode_code(self),
    {
        match self {
            SatpMode::Bare => 0,
            SatpMode::Sv32 => 1,
            SatpMode::Sv39 => 8,
            SatpMode::Sv48 => 9,
        }
    }
}

/// Decoding a mode's encoding gives the mode back, and encodings of distinct modes differ.
pub proof fn lemma_mode_code_roundtrip(m: SatpMode, n: SatpMode)
    ensures
        is_mode_code(mode_code(m)),
        mode_code(m) == mode_code(n) ==> m == n,
{
}

/// The `satp` register controls S-Mode address translation and protection.
#[derive(Debug)]
pub struct Satp;

impl Satp {
    /// The physical page number of the root page table held in the raw value of `satp`:
    /// its low 44 bits.
    pub fn read_ppn(raw: u64) -> (r: u64)
        ensures
            r == raw % 0x1000_0000_0000,
    {
        assert(raw & 0xfff_ffff_ffff == raw % 0x1000_0000_0000) by (bit_vector);
        raw & 0xfff_ffff_ffff
    }

    /// The address-space identifier held in the raw value of `satp`: bits 44 to 59.
    pub fn read_asid(raw: u64) -> (r: u64)
        ensures
            r == (raw / 0x1000_0000_0000) % 0x1_0000,
    {
        assert((raw >> 44) & 0xffff == (raw / 0x1000_0000_0000) % 0x1_0000) by (bit_vector);
        (raw >> 44) & 0xffff
    }

    /// The translation mode held in the raw value of `satp`: bits 60 to 63.
    pub fn read_mode(raw: u64) -> (r: SatpMode)
        requires
            is_mode_code(raw / 0x1000_0000_0000_0000),
        ensures
            mode_code(r) == raw / 0x1000_0000_0000_0000,
    {
        assert(raw >> 60 == raw / 0x1000_0000_0000_0000) by (bit_vector);
        SatpMode::from_code(raw >> 60)
    }
}

} // verus!
