//! Loading ELF64 executables: parsing the image, planning its loadable segments, and driving
//! an architecture loader that maps and fills them.
//!
//! Images are little-endian ELF64 files. Only `PT_LOAD` program headers are loaded.
use vstd::prelude::*;
use vstd::slice::slice_subrange;
use crate::align::{usize_is_power_of_two, is_power_of_two, aligned, align_up_spec, align_down_spec, Align, lemma_align_up_props, lemma_pow2_exponent};
use crate::mm::addr::VirtAddr;

verus! {

/// Size of the ELF64 file header.
pub const ELF_HEADER_SIZE: usize = 64;

/// Size of an ELF64 program header.
pub const PH_ENTRY_SIZE: usize = 56;

/// Program header type of a loadable segment.
pub const PT_LOAD: u32 = 1;

/// Program header flag: executable segment.
pub const PF_X: u32 = 1;
/// Program header flag: writable segment.
pub const PF_W: u32 = 2;
/// Program header flag: readable segment.
pub const PF_R: u32 = 4;

/// The little-endian 16-bit value at `off`.
pub open spec fn le16(b: Seq<u8>, off: int) -> int {
    b[off] as int + b[off + 1] as int * 0x100
}

/// The little-endian 32-bit value at `off`.
pub open spec fn le32(b: Seq<u8>, off: int) -> int {
    le16(b, off) + le16(b, off + 2) * 0x1_0000
}

/// The little-endian 64-bit value at `off`.
pub open spec fn le64(b: Seq<u8>, off: int) -> int {
    le32(b, off) + le32(b, off + 4) * 0x1_0000_0000
}

/// Reads the little-endian 16-bit value at `off`.
fn read_u16(b: &[u8], off: usize) -> (r: u16)
    requires
        off + 2 <= b@.len(),
    ensures
        r == le16(b@, off as int),
{
    (b[off] as u16) + (b[off + 1] as u16) * 256
}

/// Reads the little-endian 32-bit value at `off`.
fn read_u32(b: &[u8], off: usize) -> (r: u32)
    requires
        off + 4 <= b@.len(),
    ensures
        r == le32(b@, off as int),
{
    let n = b.len();
    assert(off + 4 <= n);
    (read_u16(b, off) as u32) + (read_u16(b, off + 2) as u32) * 0x1_0000
}

/// Reads the little-endian 64-bit value at `off`.
fn read_u64(b: &[u8], off: usize) -> (r: u64)
    requires
        off + 8 <= b@.len(),
    ensures
        r == le64(b@, off as int),
{
    let n = b.len();
    assert(off + 8 <= n);
    (read_u32(b, off) as u64) + (read_u32(b, off + 4) as u64) * 0x1_0000_0000
}

/// Reasons an image is not a loadable ELF64 file.
#[derive(Debug, Clone, Copy, PartialEq, Eq, Structural)]
pub enum ElfError {
    /// The image is shorter than an ELF64 header.
    TooShort,
    /// The image does not start with the ELF magic number.
    BadMagic,
    /// The image is not a 64-bit ELF file.
    UnsupportedClass,
    /// The image is not little-endian.
    UnsupportedEncoding,
    /// The program header table has entries too small, or lies outside the image.
    BadProgramHeaderTable,
    /// A segment's file data lies outside the image.
    SegmentOutOfBounds,
}

/// The fields of the ELF64 file header that loading uses.
#[derive(Debug, Clone, Copy, PartialEq, Eq, Structural)]
pub struct ElfHeader {
    /// Object file type.
    pub e_type: u16,
    /// Entry point virtual address.
    pub entry: u64,
    /// File offset of the program header table.
    pub phoff: u64,
    /// Size of one program header table entry.
    pub phentsize: u16,
    /// Number of program header table entries.
    pub phnum: u16,
}

/// The header fields as stored in the image.
pub open spec fn header_of(b: Seq<u8>) -> ElfHeader {
    ElfHeader {
        e_type: le16(b, 16) as u16,
        entry: le64(b, 24) as u64,
        phoff: le64(b, 32) as u64,
        phentsize: le16(b, 54) as u16,
        phnum: le16(b, 56) as u16,
    }
}

/// The outcome of parsing the header of image `b`.
pub open spec fn parse_spec(b: Seq<u8>) -> Result<ElfHeader, ElfError> {
    if b.len() < 64 {
        Err(ElfError::TooShort)
    } else if !(b[0] == 0x7f && b[1] == 0x45 && b[2] == 0x4c && b[3] == 0x46) {
        Err(ElfError::BadMagic)
    } else if b[4] != 2 {
        Err(ElfError::UnsupportedClass)
    } else if b[5] != 1 {
        Err(ElfError::UnsupportedEncoding)
    } else {
        let h = header_of(b);
        if h.phentsize < 56 || h.phoff + h.phnum * h.phentsize > b.len() {
            Err(ElfError::BadProgramHeaderTable)
        } else {
            Ok(h)
        }
    }
}

/// Parses and validates the header of an ELF64 image.
pub fn parse_header(b: &[u8]) -> (r: Result<ElfHeader, ElfError>)
    ensures
        r == parse_spec(b@),
{
    if b.len() < ELF_HEADER_SIZE {
        return Err(ElfError::TooShort);
    }
    if !(b[0] == 0x7f && b[1] == 0x45 && b[2] == 0x4c && b[3] == 0x46) {
        return Err(ElfError::BadMagic);
    }
    if b[4] != 2 {
        return Err(ElfError::UnsupportedClass);
    }
    if b[5] != 1 {
        return Err(ElfError::UnsupportedEncoding);
    }
    let h = ElfHeader {
        e_type: read_u16(b, 16),
        entry: read_u64(b, 24),
        phoff: read_u64(b, 32),
        phentsize: read_u16(b, 54),
        phnum: read_u16(b, 56),
    };
    proof {
        assert(0 <= h.phnum * h.phentsize <= 0xffff * 0xffff) by (nonlinear_arith)
            requires h.phnum <= 0xffff, h.phentsize <= 0xffff;
    }
    let table = (h.phnum as u64) * (h.phentsize as u64);
    if h.phentsize < PH_ENTRY_SIZE as u16 || table > b.len() as u64 || h.phoff > b.len() as u64 - table {
        return Err(ElfError::BadProgramHeaderTable);
    }
    Ok(h)
}

/// The fields of an ELF64 program header that loading uses.
#[derive(Debug, Clone, Copy, PartialEq, Eq, Structural)]
pub struct ProgramHeader {
    /// Segment type.
    pub p_type: u32,
    /// Segment flags (`PF_R`, `PF_W`, `PF_X`).
    pub p_flags: u32,
    /// File offset of the segment's data.
    pub offset: u64,
    /// Virtual address of the segment.
    pub vaddr: u64,
    /// Size of the segment's data in the file.
    pub filesz: u64,
    /// Size of the segment in memory.
    pub memsz: u64,
    /// Alignment of the segment.
    pub align: u64,
}

/// Program header `i` of image `b` with header `h`, as stored in the image.
pub open spec fn ph_at(b: Seq<u8>, h: ElfHeader, i: int) -> ProgramHeader {
    let base = h.phoff + i * h.phentsize;
    ProgramHeader {
        p_type: le32(b, base) as u32,
        p_flags: le32(b, base + 4) as u32,
        offset: le64(b, base + 8) as u64,
        vaddr: le64(b, base + 16) as u64,
        filesz: le64(b, base + 32) as u64,
        memsz: le64(b, base + 40) as u64,
        align: le64(b, base + 48) as u64,
    }
}

/// Reads program header `i` of a validated image.
pub fn program_header(b: &[u8], h: &ElfHeader, i: u16) -> (r: ProgramHeader)
    requires
        parse_spec(b@) == Ok::<ElfHeader, ElfError>(*h),
        i < h.phnum,
    ensures
        r == ph_at(b@, *h, i as int),
{
    proof {
        let n = h.phnum as int;
        let e = h.phentsize as int;
        let k = i as int;
        assert(0 <= k * e && k * e + e <= n * e) by (nonlinear_arith)
            requires 0 <= k < n, 0 <= e;
        assert(k * e <= 0xffff * 0xffff) by (nonlinear_arith)
            requires 0 <= k <= 0xffff, 0 <= e <= 0xffff;
    }
    let len = b.len();
    let off = (i as u64) * (h.phentsize as u64);
    let base = (h.phoff + off) as usize;
    assert(base + PH_ENTRY_SIZE <= len);
    ProgramHeader {
        p_type: read_u32(b, base),
        p_flags: read_u32(b, base + 4),
        offset: read_u64(b, base + 8),
        vaddr: read_u64(b, base + 16),
        filesz: read_u64(b, base + 32),
        memsz: read_u64(b, base + 40),
        align: read_u64(b, base + 48),
    }
}

/// Flags for a loadable segment.
#[derive(Debug, Clone, Copy, PartialEq, Eq, Structural)]
pub struct SegmentFlags {
    bits: u32,
}

impl SegmentFlags {
    /// Readable segment.
    pub const R: u32 = 1;
    /// Writable segment.
    pub const W: u32 = 2;
    /// Executable segment.
    pub const X: u32 = 4;

    /// The raw bits.
    pub closed spec fn view_bits(self) -> u32 {
        self.bits
    }

    /// No flag set.
    pub fn empty() -> (r: Self)
        ensures
            r.view_bits() == 0,
    {
        SegmentFlags { bits: 0 }
    }

    /// Builds flags from raw bits, dropping unknown bits.
    pub fn from_bits_truncate(bits: u32) -> (r: Self)
        ensures
            r.view_bits() == bits & 7,
    {
        SegmentFlags { bits: bits & 7 }
    }

    /// Returns the raw bits.
    pub fn bits(&self) -> (r: u32)
        ensures
            r == self.view_bits(),
    {
        self.bits
    }

    /// Whether all bits of `flag` are set.
    pub fn contains(&self, flag: u32) -> (r: bool)
        ensures
            r == (self.view_bits() & flag == flag),
    {
        self.bits & flag == flag
    }

    /// These flags with the bits of `flag` added.
    pub fn union(self, flag: u32) -> (r: Self)
        ensures
            r.view_bits() == self.view_bits() | (flag & 7),
    {
        SegmentFlags { bits: self.bits | (flag & 7) }
    }
}

/// The segment flags of a program header: `R`, `W` and `X` for `PF_R`, `PF_W` and `PF_X`.
pub open spec fn flags_of(p_flags: u32) -> u32 {
    (if p_flags & PF_R == PF_R { 1u32 } else { 0u32 }) | (if p_flags & PF_W == PF_W { 2u32 } else { 0u32 })
        | (if p_flags & PF_X == PF_X { 4u32 } else { 0u32 })
}

/// A single segment to be loaded, derived from an ELF `PT_LOAD` program header.
#[derive(Debug, Clone, Copy)]
pub struct LoadSegment<'a> {
    /// Virtual address of the segment.
    pub vaddr: VirtAddr,
    /// Size in memory.
    pub mem_size: usize,
    /// Data to copy from the file.
    pub file_data: &'a [u8],
    /// Offset in the file.
    pub file_off: usize,
    /// Segment flags.
    pub flags: SegmentFlags,
    /// Alignment constraint.
    pub align: usize,
}

/// Instruction for the core loader on how to load an ELF image.
#[derive(Debug)]
pub struct LoadPlan<'a> {
    /// Entry point virtual address.
    pub entry: VirtAddr,
    /// The loadable segments, in program header order.
    pub segments: Vec<LoadSegment<'a>>,
}

/// Policy for loading an ELF image.
#[derive(Debug, Clone, Copy)]
pub struct LoadPolicy {
    /// Forbid segments both writable and executable if false.
    pub allow_wx: bool,
    /// Optional base hint (ASLR can ignore).
    pub pie_base_hint: usize,
    /// Cap on the number of `PT_LOAD` segments.
    pub max_segments: usize,
}

/// Errors that can occur during ELF loading.
#[derive(Debug, Clone, Copy, PartialEq, Eq, Structural)]
pub enum ElfLoadError {
    /// Invalid ELF format.
    BadElf(ElfError),
    /// The image or the address space does not support the requested operation.
    Unsupported,
    /// A segment's memory size is smaller than its file data, or its range overflows.
    OutOfBounds,
    /// ELF segment has misaligned fields.
    Misaligned,
    /// Too many loadable segments.
    TooManySegments,
    /// Segment address range is not allowed in user space.
    AddressNotAllowed,
    /// Failed to map memory for a segment.
    MapFailed,
    /// Failed to copy segment data to user space.
    CopyFailed,
    /// Failed to zero segment memory in user space.
    ZeroFailed,
}

/// The `PT_LOAD` program headers among the first `n` ones, in order.
pub open spec fn loads(b: Seq<u8>, h: ElfHeader, n: int) -> Seq<ProgramHeader>
    decreases n,
{
    if n <= 0 {
        Seq::empty()
    } else if ph_at(b, h, n - 1).p_type == PT_LOAD {
        loads(b, h, n - 1).push(ph_at(b, h, n - 1))
    } else {
        loads(b, h, n - 1)
    }
}

/// The first problem found with the loadable segments from program header `i` on, when `n`
/// loadable segments came before it.
pub open spec fn plan_error(b: Seq<u8>, h: ElfHeader, policy: LoadPolicy, i: int, n: int) -> Option<ElfLoadError>
    decreases h.phnum - i,
{
    if i >= h.phnum || i < 0 {
        None
    } else {
        let ph = ph_at(b, h, i);
        if ph.p_type != PT_LOAD {
            plan_error(b, h, policy, i + 1, n)
        } else if n >= policy.max_segments {
            Some(ElfLoadError::TooManySegments)
        } else if ph.offset + ph.filesz > b.len() {
            Some(ElfLoadError::BadElf(ElfError::SegmentOutOfBounds))
        } else if !is_power_of_two(ph.align as usize as nat) {
            Some(ElfLoadError::Misaligned)
        } else if !aligned(ph.vaddr as usize as int, ph.align as usize as int) {
            Some(ElfLoadError::Misaligned)
        } else if (ph.memsz as usize) < ph.filesz {
            Some(ElfLoadError::OutOfBounds)
        } else {
            plan_error(b, h, policy, i + 1, n + 1)
        }
    }
}

/// The error that planning the load of image `b` reports, if any.
pub open spec fn plan_result(b: Seq<u8>, policy: LoadPolicy) -> Option<ElfLoadError> {
    match parse_spec(b) {
        Err(e) => Some(ElfLoadError::BadElf(e)),
        Ok(h) => plan_error(b, h, policy, 0, 0),
    }
}

/// `seg` is the load segment described by program header `ph` of image `b`.
pub open spec fn segment_matches(seg: LoadSegment, b: Seq<u8>, ph: ProgramHeader) -> bool {
    &&& seg.vaddr@ == ph.vaddr as usize
    &&& seg.mem_size == ph.memsz as usize
    &&& seg.file_data@ == b.subrange(ph.offset as int, ph.offset + ph.filesz)
    &&& seg.file_off == ph.offset
    &&& seg.flags.view_bits() == flags_of(ph.p_flags)
    &&& seg.align == ph.align as usize
}

/// A planned segment has exactly the permissions its program header asks for: `R`, `W` and
/// `X` are each set iff `PF_R`, `PF_W` and `PF_X` are, and no other bit is set. So loading
/// re-protects a segment (drops the write access it was mapped with) exactly when its header
/// lacks `PF_W`.
pub proof fn lemma_segment_flags_follow_header(seg: LoadSegment, b: Seq<u8>, ph: ProgramHeader)
    requires
        segment_matches(seg, b, ph),
    ensures
        (seg.flags.view_bits() & SegmentFlags::R == SegmentFlags::R) <==> (ph.p_flags & PF_R == PF_R),
        (seg.flags.view_bits() & SegmentFlags::W == SegmentFlags::W) <==> (ph.p_flags & PF_W == PF_W),
        (seg.flags.view_bits() & SegmentFlags::X == SegmentFlags::X) <==> (ph.p_flags & PF_X == PF_X),
        seg.flags.view_bits() & !7u32 == 0,
        ph_protected(ph) <==> (ph.p_flags & PF_W != PF_W),
{
    let p = ph.p_flags;
    let f = flags_of(p);
    let r: u32 = if p & 4 == 4 { 1 } else { 0 };
    let w: u32 = if p & 2 == 2 { 2 } else { 0 };
    let x: u32 = if p & 1 == 1 { 4 } else { 0 };
    assert(f == r | w | x);
    assert((r == 1 || r == 0) && (w == 2 || w == 0) && (x == 4 || x == 0) ==> {
        &&& ((r | w | x) & 1 == 1) == (r == 1)
        &&& ((r | w | x) & 2 == 2) == (w == 2)
        &&& ((r | w | x) & 4 == 4) == (x == 4)
        &&& (r | w | x) & !7u32 == 0
        &&& (((r | w | x) | (2u32 & 7)) != (r | w | x)) == (w == 0)
    }) by (bit_vector);
}

/// `plan` loads image `b`: its entry point and, in order, one segment per `PT_LOAD` program
/// header.
pub open spec fn plan_matches(plan: LoadPlan, b: Seq<u8>) -> bool {
    let h = header_of(b);
    let l = loads(b, h, h.phnum as int);
    &&& plan.entry@ == h.entry as usize
    &&& plan.segments@.len() == l.len()
    &&& forall|k: int| 0 <= k < l.len() ==> segment_matches(#[trigger] plan.segments@[k], b, l[k])
    &&& forall|k: int| 0 <= k < l.len() ==> (#[trigger] plan.segments@[k]).file_data@.len() <= plan.segments@[k].mem_size
}

/// `loads` grows by the header at `n` exactly when it is loadable.
proof fn lemma_loads_step(b: Seq<u8>, h: ElfHeader, n: int)
    requires
        n >= 0,
    ensures
        loads(b, h, n + 1) == if ph_at(b, h, n).p_type == PT_LOAD {
            loads(b, h, n).push(ph_at(b, h, n))
        } else {
            loads(b, h, n)
        },
{
}

/// Parses the image and plans the loading of its `PT_LOAD` segments.
pub fn build_load_plan<'a>(elf: &'a [u8], policy: LoadPolicy) -> (r: Result<LoadPlan<'a>, ElfLoadError>)
    ensures
        plan_result(elf@, policy) matches Some(e) ==> r == Err::<LoadPlan, ElfLoadError>(e),
        plan_result(elf@, policy) is None ==> (r matches Ok(plan) && plan_matches(plan, elf@)),
{
    let h = match parse_header(elf) {
        Ok(h) => h,
        Err(e) => {
            return Err(ElfLoadError::BadElf(e));
        },
    };
    let ghost b = elf@;
    let mut segments: Vec<LoadSegment<'a>> = Vec::new();
    let mut i: u16 = 0;
    while i < h.phnum
        invariant
            b == elf@,
            parse_spec(b) == Ok::<ElfHeader, ElfError>(h),
            i <= h.phnum,
            segments@.len() == loads(b, h, i as int).len(),
            forall|k: int| 0 <= k < segments@.len() ==> segment_matches(#[trigger] segments@[k], b, loads(b, h, i as int)[k]),
            forall|k: int| 0 <= k < segments@.len() ==> (#[trigger] segments@[k]).file_data@.len() <= segments@[k].mem_size,
            plan_error(b, h, policy, 0, 0) == plan_error(b, h, policy, i as int, segments@.len() as int),
        decreases h.phnum - i,
    {
        let ph = program_header(elf, &h, i);
        proof { lemma_loads_step(b, h, i as int); }
        if ph.p_type == PT_LOAD {
            if segments.len() >= policy.max_segments {
                return Err(ElfLoadError::TooManySegments);
            }
            if ph.offset > elf.len() as u64 || ph.filesz > elf.len() as u64 - ph.offset {
                return Err(ElfLoadError::BadElf(ElfError::SegmentOutOfBounds));
            }
            let file_off = ph.offset as usize;
            let file_end = (ph.offset + ph.filesz) as usize;
            let file_data = slice_subrange(elf, file_off, file_end);
            let mem_size = ph.memsz as usize;
            let vaddr = VirtAddr::new_unchecked(ph.vaddr as usize);
            let align = ph.align as usize;
            let r: u32 = if ph.p_flags & PF_R == PF_R { 1 } else { 0 };
            let w: u32 = if ph.p_flags & PF_W == PF_W { 2 } else { 0 };
            let x: u32 = if ph.p_flags & PF_X == PF_X { 4 } else { 0 };
            let flags = SegmentFlags { bits: r | w | x };

            if !usize_is_power_of_two(align) {
                return Err(ElfLoadError::Misaligned);
            }
            if !vaddr.is_aligned(align) {
                return Err(ElfLoadError::Misaligned);
            }
            if mem_size < file_data.len() {
                return Err(ElfLoadError::OutOfBounds);
            }
            let seg = LoadSegment { vaddr, mem_size, file_data, file_off, flags, align };
            segments.push(seg);
            proof {
                assert(segments@.last() == seg);
            }
        }
        i += 1;
    }
    proof {
        assert(header_of(b) == h);
    }
    Ok(LoadPlan { entry: VirtAddr::new_unchecked(h.entry as usize), segments })
}


/// Architecture interface for loading processes.
///
/// The core loader calls these methods to set up the process's address space and load the ELF
/// segments, so that the loading logic stays architecture-agnostic while the architecture
/// controls how memory is allocated and mapped.
pub trait ElfLoader {
    /// An opaque handle representing the process's address space.
    type AddrSpace;

    /// An opaque error type for reporting architecture-specific loading failures.
    type Error;

    /// Creates a new user address space and returns its handle.
    fn new_user_addr_space(&self) -> Result<Self::AddrSpace, Self::Error>;

    /// Chooses a base for a position-independent image within the user address layout.
    fn choose_pie_base(
        &self,
        aspace: &mut Self::AddrSpace,
        image_min_vaddr: VirtAddr,
        image_max_vaddr: VirtAddr,
        align: usize,
        hint: usize,
    ) -> Result<usize, Self::Error>;

    /// Validates that a virtual address range is permitted for user mappings.
    fn validate_user_range(&self, aspace: &Self::AddrSpace, vaddr: VirtAddr, len: usize) -> Result<(), Self::Error>;

    /// Maps anonymous pages for `[vaddr, vaddr + len)` with `flags`; the range is page-aligned.
    fn map_anonymous(&self, aspace: &mut Self::AddrSpace, vaddr: VirtAddr, len: usize, flags: SegmentFlags) -> Result<(), Self::Error>;

    /// Updates the permissions of an already-mapped range.
    fn protect_range(&self, aspace: &mut Self::AddrSpace, vaddr: VirtAddr, len: usize, flags: SegmentFlags) -> Result<(), Self::Error>;

    /// Copies bytes into an already-mapped region.
    fn copy_to_user(&self, aspace: &mut Self::AddrSpace, dst_vaddr: VirtAddr, src: &[u8]) -> Result<(), Self::Error>;

    /// Zero-fills an already-mapped region.
    fn zero_user(&self, aspace: &mut Self::AddrSpace, dst_vaddr: VirtAddr, len: usize) -> Result<(), Self::Error>;

    /// Ensures instruction cache coherency after the image has been mapped.
    fn finalize_image(&self, aspace: &mut Self::AddrSpace, mapped_exec_ranges: &[(VirtAddr, VirtAddr)]) -> Result<(), Self::Error>;

    /// The page size, to which mapped ranges are rounded; a power of two.
    fn page_size(&self) -> (r: usize)
        ensures
            is_power_of_two(r as nat),
    ;
}

/// How a segment is mapped: the page-rounded range, the flags it is first mapped with, the
/// tail that is zero-filled, and whether its final permissions differ from the loading ones.
#[derive(Debug, Clone, Copy)]
pub struct SegmentMapping {
    /// Start of the mapped range (the segment address rounded down to a page).
    pub start: VirtAddr,
    /// Length of the mapped range (up to the segment end rounded up to a page).
    pub len: usize,
    /// Flags while loading: the segment's flags plus `W`.
    pub load_flags: SegmentFlags,
    /// Start of the zero-filled tail (after the file data).
    pub zero_start: VirtAddr,
    /// Length of the zero-filled tail.
    pub zero_len: usize,
    /// Whether the range must be re-protected with the segment's own flags after loading.
    pub protect: bool,
}

/// Computes how `seg` is mapped with pages of `page` bytes; `None` when the page-rounded end
/// of the segment does not fit in the address space.
pub fn segment_mapping(seg: &LoadSegment, page: usize) -> (r: Option<SegmentMapping>)
    requires
        is_power_of_two(page as nat),
        seg.file_data@.len() <= seg.mem_size,
    ensures
        r is None <==> seg.vaddr@ + seg.mem_size + page - 1 > usize::MAX,
        r matches Some(m) ==> {
            &&& m.start@ == align_down_spec(seg.vaddr@ as int, page as int)
            &&& m.start@ + m.len == align_up_spec(seg.vaddr@ + seg.mem_size, page as int)
            &&& m.load_flags.view_bits() == seg.flags.view_bits() | (SegmentFlags::W & 7)
            &&& m.zero_start@ == seg.vaddr@ + seg.file_data@.len()
            &&& m.zero_len == seg.mem_size - seg.file_data@.len()
            &&& m.protect == (seg.flags != m.load_flags)
        },
{
    proof { lemma_pow2_exponent(page as u64); }
    if seg.mem_size > usize::MAX - seg.vaddr.as_usize() {
        return None;
    }
    let end = seg.vaddr + seg.mem_size;
    if end.as_usize() > usize::MAX - (page - 1) {
        return None;
    }
    let map_start = seg.vaddr.align_down(page);
    let map_end = end.align_up(page);
    proof {
        lemma_align_up_props(seg.vaddr@ as int, page as int);
        lemma_align_up_props(end@ as int, page as int);
    }
    let load_flags = seg.flags.union(SegmentFlags::W);
    let file_len = seg.file_data.len();
    Some(SegmentMapping {
        start: map_start,
        len: (map_end - map_start).as_usize(),
        load_flags,
        zero_start: seg.vaddr + file_len,
        zero_len: seg.mem_size - file_len,
        protect: seg.flags != load_flags,
    })
}

/// Whether segment flag bits have both the writable and the executable bit.
pub open spec fn is_wx_bits(bits: u32) -> bool {
    bits & SegmentFlags::W == SegmentFlags::W && bits & SegmentFlags::X == SegmentFlags::X
}

/// Whether `flags` has both the writable and the executable bit.
pub open spec fn is_wx(flags: SegmentFlags) -> bool {
    is_wx_bits(flags.view_bits())
}

/// The plan respects the policy on writable and executable segments.
pub open spec fn wx_ok(policy: LoadPolicy, plan: LoadPlan) -> bool {
    policy.allow_wx || forall|k: int| 0 <= k < plan.segments@.len() ==> !is_wx(#[trigger] plan.segments@[k].flags)
}

/// Start of the page-rounded range that holds segment `ph`, with pages of `page` bytes.
pub open spec fn ph_start(ph: ProgramHeader, page: int) -> int {
    align_down_spec(ph.vaddr as usize as int, page)
}

/// Length of the page-rounded range that holds segment `ph`.
pub open spec fn ph_len(ph: ProgramHeader, page: int) -> int {
    align_up_spec(ph.vaddr as usize + ph.memsz as usize, page) - ph_start(ph, page)
}

/// The file data of segment `ph` in image `b`.
pub open spec fn ph_data(b: Seq<u8>, ph: ProgramHeader) -> Seq<u8> {
    b.subrange(ph.offset as int, ph.offset + ph.filesz)
}

/// Whether segment `ph` is re-protected after loading: its own flags lack `W`.
pub open spec fn ph_protected(ph: ProgramHeader) -> bool {
    (flags_of(ph.p_flags) | (SegmentFlags::W & 7)) != flags_of(ph.p_flags)
}

/// What loading refuses of segment `ph` before asking the loader anything about it: a
/// writable and executable segment the policy forbids, or a segment whose page-rounded end
/// lies beyond the address space.
pub open spec fn segment_refusal(ph: ProgramHeader, policy: LoadPolicy, page: int) -> Option<ElfLoadError> {
    if !policy.allow_wx && is_wx_bits(flags_of(ph.p_flags)) {
        Some(ElfLoadError::Unsupported)
    } else if ph.vaddr as usize + ph.memsz as usize + page - 1 > usize::MAX {
        Some(ElfLoadError::OutOfBounds)
    } else {
        None
    }
}

/// The first refusal among the segments `l[k..]`, in order.
pub open spec fn first_refusal(l: Seq<ProgramHeader>, policy: LoadPolicy, page: int, k: int) -> Option<ElfLoadError>
    decreases l.len() - k,
{
    if k < 0 || k >= l.len() {
        None
    } else if segment_refusal(l[k], policy, page) is Some {
        segment_refusal(l[k], policy, page)
    } else {
        first_refusal(l, policy, page, k + 1)
    }
}

/// The loader answered `validate_user_range` on the page-rounded range of `ph` with
/// success (`ok`) or with an error.
pub open spec fn validated<A: ElfLoader>(loader: &A, ph: ProgramHeader, page: int, ok: bool) -> bool {
    exists|a: A::AddrSpace, v: VirtAddr, n: usize, res: Result<(), A::Error>|
        #[trigger] call_ensures(A::validate_user_range, (loader, &a, v, n), res) && (res is Ok) == ok && v@
            == ph_start(ph, page) && n == ph_len(ph, page)
}

/// The loader answered `map_anonymous` on the page-rounded range of `ph`, with the
/// segment's flags plus `W`.
pub open spec fn mapped<A: ElfLoader>(loader: &A, ph: ProgramHeader, page: int, ok: bool) -> bool {
    exists|a: &mut A::AddrSpace, v: VirtAddr, n: usize, f: SegmentFlags, res: Result<(), A::Error>|
        #[trigger] call_ensures(A::map_anonymous, (loader, a, v, n, f), res) && (res is Ok) == ok && v@
            == ph_start(ph, page) && n == ph_len(ph, page) && f.view_bits() == flags_of(ph.p_flags) | (
        SegmentFlags::W & 7)
}

/// The loader answered `copy_to_user` of the file data of `ph` to the segment's address.
pub open spec fn copied<A: ElfLoader>(loader: &A, b: Seq<u8>, ph: ProgramHeader, ok: bool) -> bool {
    exists|a: &mut A::AddrSpace, v: VirtAddr, src: &[u8], res: Result<(), A::Error>|
        #[trigger] call_ensures(A::copy_to_user, (loader, a, v, src), res) && (res is Ok) == ok && v@
            == ph.vaddr as usize && src@ == ph_data(b, ph)
}

/// The loader answered `zero_user` on the tail of `ph` past its file data.
pub open spec fn zeroed<A: ElfLoader>(loader: &A, b: Seq<u8>, ph: ProgramHeader, ok: bool) -> bool {
    exists|a: &mut A::AddrSpace, v: VirtAddr, n: usize, res: Result<(), A::Error>|
        #[trigger] call_ensures(A::zero_user, (loader, a, v, n), res) && (res is Ok) == ok && v@
            == ph.vaddr as usize + ph_data(b, ph).len() && n == ph.memsz as usize - ph_data(b, ph).len()
}

/// The loader answered `protect_range` on the page-rounded range of `ph`, with the
/// segment's own flags.
pub open spec fn protected<A: ElfLoader>(loader: &A, ph: ProgramHeader, page: int, ok: bool) -> bool {
    exists|a: &mut A::AddrSpace, v: VirtAddr, n: usize, f: SegmentFlags, res: Result<(), A::Error>|
        #[trigger] call_ensures(A::protect_range, (loader, a, v, n, f), res) && (res is Ok) == ok && v@
            == ph_start(ph, page) && n == ph_len(ph, page) && f.view_bits() == flags_of(ph.p_flags)
}

/// The loader answered `finalize_image` with no executable ranges.
pub open spec fn finalized<A: ElfLoader>(loader: &A, ok: bool) -> bool {
    exists|a: &mut A::AddrSpace, ranges: &[(VirtAddr, VirtAddr)], res: Result<(), A::Error>|
        #[trigger] call_ensures(A::finalize_image, (loader, a, ranges), res) && (res is Ok) == ok
            && ranges@.len() == 0
}

/// Segment `ph` of image `b` was loaded: each call made for it was answered with success.
pub open spec fn segment_loaded<A: ElfLoader>(loader: &A, b: Seq<u8>, ph: ProgramHeader, page: int) -> bool {
    &&& validated(loader, ph, page, true)
    &&& mapped(loader, ph, page, true)
    &&& copied(loader, b, ph, true)
    &&& ph_data(b, ph).len() < ph.memsz as usize ==> zeroed(loader, b, ph, true)
    &&& ph_protected(ph) ==> protected(loader, ph, page, true)
}

/// The segments `l[..k]` were neither refused nor failed: each was loaded.
pub open spec fn loaded_before<A: ElfLoader>(
    loader: &A,
    b: Seq<u8>,
    l: Seq<ProgramHeader>,
    policy: LoadPolicy,
    page: int,
    k: int,
) -> bool {
    forall|j: int| 0 <= j < k ==> #[trigger] segment_done(loader, b, l[j], policy, page)
}

/// Segment `ph` was not refused and was loaded.
pub open spec fn segment_done<A: ElfLoader>(loader: &A, b: Seq<u8>, ph: ProgramHeader, policy: LoadPolicy, page: int) -> bool {
    segment_refusal(ph, policy, page) is None && segment_loaded(loader, b, ph, page)
}

/// Every call that loading makes is answered with success by `loader`.
pub open spec fn loader_accepts<A: ElfLoader>(loader: &A) -> bool {
    &&& forall|a: A::AddrSpace, v: VirtAddr, n: usize, res: Result<(), A::Error>|
        #[trigger] call_ensures(A::validate_user_range, (loader, &a, v, n), res) ==> res is Ok
    &&& forall|a: &mut A::AddrSpace, v: VirtAddr, n: usize, f: SegmentFlags, res: Result<(), A::Error>|
        #[trigger] call_ensures(A::map_anonymous, (loader, a, v, n, f), res) ==> res is Ok
    &&& forall|a: &mut A::AddrSpace, v: VirtAddr, src: &[u8], res: Result<(), A::Error>|
        #[trigger] call_ensures(A::copy_to_user, (loader, a, v, src), res) ==> res is Ok
    &&& forall|a: &mut A::AddrSpace, v: VirtAddr, n: usize, res: Result<(), A::Error>|
        #[trigger] call_ensures(A::zero_user, (loader, a, v, n), res) ==> res is Ok
    &&& forall|a: &mut A::AddrSpace, v: VirtAddr, n: usize, f: SegmentFlags, res: Result<(), A::Error>|
        #[trigger] call_ensures(A::protect_range, (loader, a, v, n, f), res) ==> res is Ok
    &&& forall|a: &mut A::AddrSpace, ranges: &[(VirtAddr, VirtAddr)], res: Result<(), A::Error>|
        #[trigger] call_ensures(A::finalize_image, (loader, a, ranges), res) ==> res is Ok
}

/// The loadable program headers of image `b`, in order.
pub open spec fn load_headers(b: Seq<u8>) -> Seq<ProgramHeader> {
    loads(b, header_of(b), header_of(b).phnum as int)
}

/// How the loading of segment `ph` failed with `e` after the loader was asked about it.
pub open spec fn segment_failed<A: ElfLoader>(loader: &A, b: Seq<u8>, ph: ProgramHeader, page: int, e: ElfLoadError) -> bool {
    ||| e == ElfLoadError::AddressNotAllowed && validated(loader, ph, page, false)
    ||| e == ElfLoadError::MapFailed && mapped(loader, ph, page, false)
    ||| e == ElfLoadError::CopyFailed && copied(loader, b, ph, false)
    ||| e == ElfLoadError::ZeroFailed && ph_data(b, ph).len() < ph.memsz as usize && zeroed(loader, b, ph, false)
    ||| e == ElfLoadError::MapFailed && ph_protected(ph) && protected(loader, ph, page, false)
}

/// Loads one planned segment `seg`, described by program header `ph` of image `b`: refuses
/// it if it is writable and executable and the policy forbids that, or if its page-rounded
/// end lies beyond the address space; else validates, maps (writable) and fills its
/// page-rounded range, zeroes its tail and restores its own permissions, stopping at the
/// first call that fails.
fn load_segment<A: ElfLoader>(
    loader: &A,
    aspace: &mut A::AddrSpace,
    seg: &LoadSegment,
    page: usize,
    policy: LoadPolicy,
    Ghost(b): Ghost<Seq<u8>>,
    Ghost(ph): Ghost<ProgramHeader>,
) -> (r: Result<(), ElfLoadError>)
    requires
        is_power_of_two(page as nat),
        segment_matches(*seg, b, ph),
        seg.file_data@.len() <= seg.mem_size,
    ensures
        segment_refusal(ph, policy, page as int) matches Some(e) ==> r == Err::<(), ElfLoadError>(e),
        r is Ok ==> segment_refusal(ph, policy, page as int) is None && segment_loaded(loader, b, ph, page as int),
        r matches Err(e) ==> segment_refusal(ph, policy, page as int) == Some(e) || (segment_refusal(ph, policy, page as int) is None
            && segment_failed(loader, b, ph, page as int, e)),
        segment_refusal(ph, policy, page as int) is None && loader_accepts(loader) ==> r is Ok,
{
    // enforce W^X if configured
    if !policy.allow_wx && seg.flags.contains(SegmentFlags::W) && seg.flags.contains(SegmentFlags::X) {
        return Err(ElfLoadError::Unsupported);
    }
    let m = match segment_mapping(seg, page) {
        Some(m) => m,
        None => {
            return Err(ElfLoadError::OutOfBounds);
        },
    };
    if loader.validate_user_range(&*aspace, m.start, m.len).is_err() {
        assert(validated(loader, ph, page as int, false));
        return Err(ElfLoadError::AddressNotAllowed);
    }
    assert(validated(loader, ph, page as int, true));
    // map pages writable for loading; the final flags are restored below
    if loader.map_anonymous(aspace, m.start, m.len, m.load_flags).is_err() {
        assert(mapped(loader, ph, page as int, false));
        return Err(ElfLoadError::MapFailed);
    }
    assert(mapped(loader, ph, page as int, true));
    if loader.copy_to_user(aspace, seg.vaddr, seg.file_data).is_err() {
        assert(copied(loader, b, ph, false));
        return Err(ElfLoadError::CopyFailed);
    }
    assert(copied(loader, b, ph, true));
    // zero the .bss tail
    if seg.file_data.len() < seg.mem_size {
        if loader.zero_user(aspace, m.zero_start, m.zero_len).is_err() {
            assert(zeroed(loader, b, ph, false));
            return Err(ElfLoadError::ZeroFailed);
        }
        assert(zeroed(loader, b, ph, true));
    }
    // drop write permission if the segment itself is not writable
    if m.protect {
        if loader.protect_range(aspace, m.start, m.len, seg.flags).is_err() {
            assert(protected(loader, ph, page as int, false));
            return Err(ElfLoadError::MapFailed);
        }
        assert(protected(loader, ph, page as int, true));
    }
    Ok(())
}

/// One more loaded segment extends the loaded prefix.
proof fn lemma_loaded_before_step<A: ElfLoader>(loader: &A, b: Seq<u8>, l: Seq<ProgramHeader>, policy: LoadPolicy, page: int, k: int)
    requires
        0 <= k < l.len(),
        loaded_before(loader, b, l, policy, page, k),
        segment_refusal(l[k], policy, page) is None,
        segment_loaded(loader, b, l[k], page),
    ensures
        loaded_before(loader, b, l, policy, page, k + 1),
{
    assert forall|j: int| 0 <= j < k + 1 implies #[trigger] segment_done(loader, b, l[j], policy, page) by {
        if j < k {
            assert(segment_done(loader, b, l[j], policy, page));
        }
    }
}

/// Loads an ELF binary into the given address space using the provided architecture loader.
///
/// For each planned segment, in order: refuses it if it is writable and executable and the
/// policy forbids that; validates, maps (writable) and fills its page-rounded range; zeroes its
/// tail; and restores its own permissions. Then finalizes the image.
pub fn load_elf_into<'a, A: ElfLoader>(
    loader: &A,
    aspace: &mut A::AddrSpace,
    elf: &'a [u8],
    policy: LoadPolicy,
) -> (r: Result<LoadPlan<'a>, ElfLoadError>)
    ensures
        plan_result(elf@, policy) matches Some(e) ==> r == Err::<LoadPlan, ElfLoadError>(e),
        r matches Ok(plan) ==> plan_result(elf@, policy) is None && plan_matches(plan, elf@) && wx_ok(policy, plan),
        r is Ok ==> exists|page: usize|
            #[trigger] call_ensures(A::page_size, (loader,), page) && loaded_before(
                loader,
                elf@,
                load_headers(elf@),
                policy,
                page as int,
                load_headers(elf@).len() as int,
            ) && finalized(loader, true),
        r matches Err(e) ==> ({
            ||| plan_result(elf@, policy) == Some(e)
            ||| exists|page: usize, k: int|
                #![trigger call_ensures(A::page_size, (loader,), page), load_headers(elf@)[k]]
                call_ensures(A::page_size, (loader,), page) && 0 <= k < load_headers(elf@).len() && loaded_before(
                    loader,
                    elf@,
                    load_headers(elf@),
                    policy,
                    page as int,
                    k,
                ) && (segment_refusal(load_headers(elf@)[k], policy, page as int) == Some(e) || (segment_refusal(
                    load_headers(elf@)[k],
                    policy,
                    page as int,
                ) is None && segment_failed(loader, elf@, load_headers(elf@)[k], page as int, e)))
            ||| e == ElfLoadError::Unsupported && exists|page: usize|
                #[trigger] call_ensures(A::page_size, (loader,), page) && loaded_before(
                    loader,
                    elf@,
                    load_headers(elf@),
                    policy,
                    page as int,
                    load_headers(elf@).len() as int,
                ) && finalized(loader, false)
        }),
        plan_result(elf@, policy) is None && loader_accepts(loader) ==> exists|page: usize|
            #[trigger] call_ensures(A::page_size, (loader,), page) && match first_refusal(
                load_headers(elf@),
                policy,
                page as int,
                0,
            ) {
                Some(e) => r == Err::<LoadPlan, ElfLoadError>(e),
                None => r is Ok,
            },
{
    let plan = match build_load_plan(elf, policy) {
        Ok(p) => p,
        Err(e) => {
            return Err(e);
        },
    };
    let ghost l = load_headers(elf@);
    let page = loader.page_size();
    let mut k: usize = 0;
    while k < plan.segments.len()
        invariant
            plan_result(elf@, policy) is None,
            plan_matches(plan, elf@),
            is_power_of_two(page as nat),
            k <= plan.segments@.len(),
            l == load_headers(elf@),
            call_ensures(A::page_size, (loader,), page),
            loaded_before(loader, elf@, l, policy, page as int, k as int),
            first_refusal(l, policy, page as int, 0) == first_refusal(l, policy, page as int, k as int),
        decreases plan.segments@.len() - k,
    {
        let ghost ph = l[k as int];
        assert(segment_matches(plan.segments@[k as int], elf@, ph));
        match load_segment(loader, aspace, &plan.segments[k], page, policy, Ghost(elf@), Ghost(ph)) {
            Err(e) => {
                proof {
                    if segment_refusal(ph, policy, page as int) is Some {
                        assert(first_refusal(l, policy, page as int, k as int) == Some(e));
                    }
                }
                return Err(e);
            },
            Ok(()) => {},
        }
        proof {
            assert(first_refusal(l, policy, page as int, k as int) == first_refusal(l, policy, page as int, k + 1));
            lemma_loaded_before_step(loader, elf@, l, policy, page as int, k as int);
        }
        k += 1;
    }
    assert(first_refusal(l, policy, page as int, k as int) is None);
    let no_ranges: Vec<(VirtAddr, VirtAddr)> = Vec::new();
    if loader.finalize_image(aspace, no_ranges.as_slice()).is_err() {
        assert(finalized(loader, false));
        return Err(ElfLoadError::Unsupported);
    }
    assert(finalized(loader, true));
    proof {
        if !policy.allow_wx && exists|k: int| 0 <= k < l.len() && is_wx_bits(flags_of(#[trigger] l[k].p_flags)) {
            let k = choose|k: int| 0 <= k < l.len() && is_wx_bits(flags_of(#[trigger] l[k].p_flags));
            assert(segment_done(loader, elf@, l[k], policy, page as int));
        }
        assert forall|j: int| 0 <= j < plan.segments@.len() implies !is_wx(#[trigger] plan.segments@[j].flags) || policy.allow_wx by {
            assert(segment_matches(plan.segments@[j], elf@, l[j]));
            assert(segment_done(loader, elf@, l[j], policy, page as int));
        }
    }
    Ok(plan)
}

} // verus!
