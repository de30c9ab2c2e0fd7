//! QEMU firmware configuration (fw_cfg) device: the DMA access descriptor, its control word,
//! and the file directory.
//!
//! fw_cfg structures are big-endian on the wire.
use vstd::prelude::*;
use vstd::string::StringSliceAdditionalSpecFns;

verus! {

/// The `n` big-endian bytes of `v`.
pub open spec fn be_bytes(v: int, n: nat) -> Seq<u8>
    decreases n,
{
    if n == 0 {
        Seq::empty()
    } else {
        be_bytes(v / 256, (n - 1) as nat) + seq![(v % 256) as u8]
    }
}

/// `be_bytes` yields `n` bytes.
pub proof fn lemma_be_bytes_len(v: int, n: nat)
    ensures
        be_bytes(v, n).len() == n,
    decreases n,
{
    if n > 0 {
        lemma_be_bytes_len(v / 256, (n - 1) as nat);
    }
}

/// Appends the `n` big-endian bytes of `v` to `out`.
pub fn push_be(out: &mut Vec<u8>, v: u64, n: usize)
    requires
        n <= 8,
    ensures
        final(out)@ == old(out)@ + be_bytes(v as int, n as nat),
    decreases n,
{
    if n > 0 {
        push_be(out, v / 256, n - 1);
        out.push((v % 256) as u8);
        assert(final(out)@ == old(out)@ + be_bytes(v as int, n as nat));
    } else {
        assert(old(out)@ + be_bytes(v as int, 0) == old(out)@);
    }
}

/// The big-endian value of `n` bytes of `b` starting at `off`.
pub open spec fn be_value(b: Seq<u8>, off: int, n: nat) -> int
    decreases n,
{
    if n == 0 {
        0
    } else {
        be_value(b, off, (n - 1) as nat) * 256 + b[off + n - 1] as int
    }
}

/// Control word of a DMA access.
#[derive(Debug, Clone, Copy, PartialEq, Eq, Structural)]
pub struct FwCfgDmaAccessControl {
    bits: u32,
}

impl FwCfgDmaAccessControl {
    /// The device reports an error.
    pub const ERROR: u32 = 0x1;
    /// Read from the selected item.
    pub const READ: u32 = 0x2;
    /// Skip bytes of the selected item.
    pub const SKIP: u32 = 0x4;
    /// Select the item in the upper 16 bits.
    pub const SELECT: u32 = 0x8;
    /// Write to the selected item.
    pub const WRITE: u32 = 0x10;

    /// The raw bits.
    pub closed spec fn view_bits(self) -> u32 {
        self.bits
    }

    /// No bit set.
    pub fn empty() -> (r: Self)
        ensures
            r.view_bits() == 0,
    {
        FwCfgDmaAccessControl { bits: 0 }
    }

    /// Selects item `selector`: the selector in the upper 16 bits, and `SELECT`.
    pub fn select(selector: u16) -> (r: Self)
        ensures
            r.view_bits() == selector * 0x1_0000 + FwCfgDmaAccessControl::SELECT,
    {
        FwCfgDmaAccessControl { bits: (selector as u32) * 0x1_0000 + Self::SELECT }
    }

    /// The control word for an access to `selector` (or the current item if `None`) with
    /// the operation bits `op`.
    pub fn for_access(selector: Option<u16>, op: u32) -> (r: Self)
        ensures
            r.view_bits() == match selector {
                Some(s) => (s * 0x1_0000 + FwCfgDmaAccessControl::SELECT) as u32 | op,
                None => op,
            },
    {
        let base = match selector {
            Some(s) => Self::select(s),
            None => Self::empty(),
        };
        proof {
            assert(0u32 | op == op) by (bit_vector);
        }
        FwCfgDmaAccessControl { bits: base.bits | op }
    }

    /// Returns the raw bits.
    pub fn bits(&self) -> (r: u32)
        ensures
            r == self.view_bits(),
    {
        self.bits
    }

    /// Builds a control word from raw bits, dropping unknown bits.
    pub fn from_bits_truncate(bits: u32) -> (r: Self)
        ensures
            r.view_bits() == bits & 0x1f,
    {
        FwCfgDmaAccessControl { bits: bits & 0x1f }
    }

    /// Whether all bits of `flag` are set.
    pub fn contains(&self, flag: u32) -> (r: bool)
        ensures
            r == (self.view_bits() & flag == flag),
    {
        self.bits & flag == flag
    }

    /// Whether no bit is set.
    pub fn is_empty(&self) -> (r: bool)
        ensures
            r == (self.view_bits() == 0),
    {
        self.bits == 0
    }
}

/// State of a DMA access, read back from its control word.
#[derive(Debug, Clone, Copy, PartialEq, Eq, Structural)]
pub enum DmaCompletion {
    /// The transfer completed successfully.
    Done,
    /// The device reported an error.
    Failed,
    /// The transfer is still in progress.
    Pending,
}

/// A DMA access descriptor: control word, length and buffer address.
#[derive(Debug, Clone, Copy, PartialEq, Eq, Structural)]
pub struct FwCfgDmaAccess {
    /// Selector (optional) and control bits.
    pub control: u32,
    /// Length of the data to transfer.
    pub length: u32,
    /// Physical address of the buffer to transfer.
    pub address: u64,
}

/// The wire format of a DMA access descriptor: its three fields, big-endian.
pub open spec fn access_bytes(a: FwCfgDmaAccess) -> Seq<u8> {
    be_bytes(a.control as int, 4) + be_bytes(a.length as int, 4) + be_bytes(a.address as int, 8)
}

impl FwCfgDmaAccess {
    /// Creates an access descriptor.
    pub fn new(control: FwCfgDmaAccessControl, length: u32, address: u64) -> (r: Self)
        ensures
            r == (FwCfgDmaAccess { control: control.view_bits(), length, address }),
    {
        FwCfgDmaAccess { control: control.bits(), length, address }
    }

    /// The descriptor as the device reads it.
    pub fn to_bytes(&self) -> (r: Vec<u8>)
        ensures
            r@ == access_bytes(*self),
            r@.len() == 16,
    {
        let mut out: Vec<u8> = Vec::new();
        push_be(&mut out, self.control as u64, 4);
        push_be(&mut out, self.length as u64, 4);
        push_be(&mut out, self.address, 8);
        proof {
            lemma_be_bytes_len(self.control as int, 4);
            lemma_be_bytes_len(self.length as int, 4);
            lemma_be_bytes_len(self.address as int, 8);
        }
        out
    }

    /// Interprets the control word the device wrote back: cleared when the transfer is
    /// done, with `ERROR` when it failed, anything else while it is in progress.
    pub fn completion(control: u32) -> (r: DmaCompletion)
        ensures
            r == if control & 0x1f == 0 {
                DmaCompletion::Done
            } else if control & 0x1f & FwCfgDmaAccessControl::ERROR == FwCfgDmaAccessControl::ERROR {
                DmaCompletion::Failed
            } else {
                DmaCompletion::Pending
            },
    {
        let ctrl = FwCfgDmaAccessControl::from_bits_truncate(control);
        if ctrl.is_empty() {
            DmaCompletion::Done
        } else if ctrl.contains(FwCfgDmaAccessControl::ERROR) {
            DmaCompletion::Failed
        } else {
            DmaCompletion::Pending
        }
    }
}

/// Size of a file directory entry.
pub const FILE_ENTRY_SIZE: usize = 64;

/// Size of the name field of a file directory entry.
pub const FILE_NAME_SIZE: usize = 56;

/// A file entry of the fw_cfg file directory.
#[derive(Debug)]
pub struct FwCfgFile {
    /// The size of the file in bytes.
    pub size: u32,
    /// The selector to use for reading the file.
    pub selector: u16,
    /// The name of the file, NUL-padded.
    pub name: Vec<u8>,
}

/// `s` without its trailing NUL bytes.
pub open spec fn trim_nul(s: Seq<u8>) -> Seq<u8>
    decreases s.len(),
{
    if s.len() > 0 && s.last() == 0 {
        trim_nul(s.drop_last())
    } else {
        s
    }
}

impl FwCfgFile {
    /// Decodes a directory entry: size (big-endian), selector (big-endian), a reserved
    /// word, then the name.
    pub fn parse(entry: &[u8]) -> (r: Self)
        requires
            entry@.len() == 64,
        ensures
            r.size == be_value(entry@, 0, 4),
            r.selector == be_value(entry@, 4, 2),
            r.name@ == entry@.subrange(8, 64),
    {
        let size = (((entry[0] as u32) * 256 + entry[1] as u32) * 256 + entry[2] as u32) * 256 + entry[3] as u32;
        let selector = (entry[4] as u16) * 256 + entry[5] as u16;
        let mut name: Vec<u8> = Vec::new();
        let mut i: usize = 8;
        while i < FILE_ENTRY_SIZE
            invariant
                entry@.len() == 64,
                8 <= i <= 64,
                name@ == entry@.subrange(8, i as int),
            decreases 64 - i,
        {
            name.push(entry[i]);
            i += 1;
            assert(name@ == entry@.subrange(8, i as int));
        }
        proof {
            reveal_with_fuel(be_value, 5);
        }
        FwCfgFile { size, selector, name }
    }

    /// Whether the entry's name, without its NUL padding, is `name`.
    pub fn name_matches(&self, name: &str) -> (r: bool)
        ensures
            r == (trim_nul(self.name@) == name.spec_bytes()),
    {
        let want = name.as_bytes();
        let mut len = self.name.len();
        assert(self.name@.subrange(0, len as int) == self.name@);
        while len > 0 && self.name[len - 1] == 0
            invariant
                len <= self.name@.len(),
                trim_nul(self.name@) == trim_nul(self.name@.subrange(0, len as int)),
            decreases len,
        {
            assert(self.name@.subrange(0, len as int).drop_last() == self.name@.subrange(0, len - 1));
            len -= 1;
        }
        let ghost t = self.name@.subrange(0, len as int);
        assert(trim_nul(t) == t);
        if len != want.len() {
            return false;
        }
        let mut i: usize = 0;
        while i < len
            invariant
                len == want@.len(),
                len <= self.name@.len(),
                i <= len,
                t == self.name@.subrange(0, len as int),
                trim_nul(self.name@) == t,
                want@ == name.spec_bytes(),
                forall|k: int| 0 <= k < i ==> self.name@[k] == want@[k],
            decreases len - i,
        {
            if self.name[i] != want[i] {
                assert(t[i as int] != want@[i as int]);
                return false;
            }
            i += 1;
        }
        assert(t == want@);
        true
    }
}

/// Finds the first entry of the file directory `dir` (consecutive 64-byte entries) whose
/// name is `name`.
pub fn find_file(dir: &[u8], name: &str) -> (r: Option<FwCfgFile>)
    ensures
        match r {
            Some(f) => exists|k: int| 0 <= k && (k + 1) * 64 <= dir@.len() && trim_nul(#[trigger] dir@.subrange(k * 64 + 8, k * 64 + 64)) == name.spec_bytes()
                && f.name@ == dir@.subrange(k * 64 + 8, k * 64 + 64)
                && f.size == be_value(dir@, k * 64, 4) && f.selector == be_value(dir@, k * 64 + 4, 2)
                && forall|j: int| 0 <= j < k ==> trim_nul(#[trigger] dir@.subrange(j * 64 + 8, j * 64 + 64)) != name.spec_bytes(),
            None => forall|j: int| 0 <= j && (j + 1) * 64 <= dir@.len() ==> trim_nul(#[trigger] dir@.subrange(j * 64 + 8, j * 64 + 64)) != name.spec_bytes(),
        },
{
    let n = dir.len();
    let count = n / FILE_ENTRY_SIZE;
    let mut k: usize = 0;
    while k < count
        invariant
            n == dir@.len(),
            count == dir@.len() / 64,
            k <= count,
            forall|j: int| 0 <= j < k ==> trim_nul(#[trigger] dir@.subrange(j * 64 + 8, j * 64 + 64)) != name.spec_bytes(),
        decreases count - k,
    {
        proof {
            assert(k * 64 + 64 <= n) by (nonlinear_arith)
                requires k < count, count == n / 64;
        }
        let entry = vstd::slice::slice_subrange(dir, k * FILE_ENTRY_SIZE, k * FILE_ENTRY_SIZE + FILE_ENTRY_SIZE);
        let file = FwCfgFile::parse(entry);
        proof {
            assert(file.name@ == dir@.subrange(k * 64 + 8, k * 64 + 64));
            assert forall|o: int| 0 <= o < 4 implies entry@[o] == dir@[k * 64 + o] by {}
            reveal_with_fuel(be_value, 5);
        }
        if file.name_matches(name) {
            return Some(file);
        }
        k += 1;
    }
    proof {
        assert forall|j: int| 0 <= j && (j + 1) * 64 <= dir@.len() implies trim_nul(#[trigger] dir@.subrange(j * 64 + 8, j * 64 + 64)) != name.spec_bytes() by {
            assert(j < count) by (nonlinear_arith)
                requires 0 <= j, (j + 1) * 64 <= dir@.len(), count == dir@.len() / 64;
        }
    }
    None
}

/// Selector of the signature item.
pub const FW_CFG_SIGNATURE: u16 = 0x0000;

/// Selector of the feature bitmap item.
pub const FW_CFG_ID: u16 = 0x0001;

/// Selector of the file directory.
pub const FW_CFG_FILE_DIR: u16 = 0x0019;

/// Offset of the DMA address register in the device's register map.
pub const DMA_ACCESS_REG: usize = 0x10;

/// Feature bit: the device supports DMA accesses.
pub const FEATURE_DMA: u32 = 0x2;

/// The signature a fw_cfg device reports: the ASCII bytes `QEMU`.
pub open spec fn qemu_signature() -> Seq<u8> {
    seq![0x51u8, 0x45u8, 0x4du8, 0x55u8]
}

/// Decides whether a probed fw_cfg device is usable, from the signature and the feature
/// bitmap it reported: it must identify itself as QEMU and support DMA.
pub fn check_device(signature: &[u8], features: u32) -> (r: Result<(), &'static str>)
    ensures
        signature@ != qemu_signature() ==> (r matches Err(m) && m@ == "Invalid signature"@),
        signature@ == qemu_signature() && features & FEATURE_DMA == 0 ==> (r matches Err(m) && m@ == "DMA not supported"@),
        signature@ == qemu_signature() && features & FEATURE_DMA != 0 ==> r is Ok,
{
    let ok = signature.len() == 4 && signature[0] == 0x51u8 && signature[1] == 0x45u8 && signature[2] == 0x4du8
        && signature[3] == 0x55u8;
    proof {
        if ok {
            assert(signature@ =~= qemu_signature());
        }
    }
    if !ok {
        return Err("Invalid signature");
    }
    if features & FEATURE_DMA == 0 {
        return Err("DMA not supported");
    }
    Ok(())
}

} // verus!
