use rv6::vfs::fd::{Fd, FileRef};
use std::cell::RefCell;

use rv6::mm::addr::VirtAddr;
use rv6::proc::spawn::{
    heap_start, new_user_process, spawn_user_with_pid, ProcessBuilder, ProcessLoadError, ProcessMemoryLayout,
    ProcessStackLayout, StackSpec, UserProcessExecutor,
};
use rv6::proc::{BreakError, Pid, Process, ProcessKind, ProcessState, ProcessTable};
use rv6::proc::elf::{
    build_load_plan, load_elf_into, parse_header, segment_mapping, ElfError, ElfLoadError,
    ElfLoader, LoadPolicy, SegmentFlags, PF_R, PF_W, PF_X, PT_LOAD,
};

struct Ph {
    p_type: u32,
    flags: u32,
    offset: u64,
    vaddr: u64,
    filesz: u64,
    memsz: u64,
    align: u64,
}

fn image(entry: u64, phs: &[Ph], total: usize) -> Vec<u8> {
    let mut b = vec![0u8; total];
    b[0..4].copy_from_slice(&[0x7f, b'E', b'L', b'F']);
    b[4] = 2;
    b[5] = 1;
    b[16..18].copy_from_slice(&2u16.to_le_bytes());
    b[24..32].copy_from_slice(&entry.to_le_bytes());
    b[32..40].copy_from_slice(&64u64.to_le_bytes());
    b[54..56].copy_from_slice(&56u16.to_le_bytes());
    b[56..58].copy_from_slice(&(phs.len() as u16).to_le_bytes());
    for (i, ph) in phs.iter().enumerate() {
        let o = 64 + 56 * i;
        b[o..o + 4].copy_from_slice(&ph.p_type.to_le_bytes());
        b[o + 4..o + 8].copy_from_slice(&ph.flags.to_le_bytes());
        b[o + 8..o + 16].copy_from_slice(&ph.offset.to_le_bytes());
        b[o + 16..o + 24].copy_from_slice(&ph.vaddr.to_le_bytes());
        b[o + 32..o + 40].copy_from_slice(&ph.filesz.to_le_bytes());
        b[o + 40..o + 48].copy_from_slice(&ph.memsz.to_le_bytes());
        b[o + 48..o + 56].copy_from_slice(&ph.align.to_le_bytes());
    }
    b
}

fn policy() -> LoadPolicy {
    LoadPolicy { allow_wx: false, pie_base_hint: 0, max_segments: 16 }
}

fn sample() -> Vec<u8> {
    let mut b = image(
        0x1_0040,
        &[
            Ph { p_type: PT_LOAD, flags: PF_R | PF_X, offset: 0x200, vaddr: 0x1_0000, filesz: 0x10, memsz: 0x10, align: 0x1000 },
            Ph { p_type: 4, flags: PF_R, offset: 0, vaddr: 0, filesz: 0, memsz: 0, align: 1 },
            Ph { p_type: PT_LOAD, flags: PF_R | PF_W, offset: 0x210, vaddr: 0x2_0000, filesz: 0x8, memsz: 0x2000, align: 0x1000 },
        ],
        0x300,
    );
    for i in 0..0x18 {
        b[0x200 + i] = i as u8 + 1;
    }
    b
}

#[test]
fn parse_header_checks() {
    assert_eq!(parse_header(&[0u8; 10]), Err(ElfError::TooShort));
    let mut b = sample();
    assert_eq!(parse_header(&b).unwrap().entry, 0x1_0040);
    assert_eq!(parse_header(&b).unwrap().phnum, 3);
    b[4] = 1;
    assert_eq!(parse_header(&b), Err(ElfError::UnsupportedClass));
    b[4] = 2;
    b[5] = 2;
    assert_eq!(parse_header(&b), Err(ElfError::UnsupportedEncoding));
    b[0] = 0;
    assert_eq!(parse_header(&b), Err(ElfError::BadMagic));
    let mut c = sample();
    c[56] = 200; // the table runs past the end of the image
    assert_eq!(parse_header(&c), Err(ElfError::BadProgramHeaderTable));
}

#[test]
fn plan_keeps_loadable_segments_in_order() {
    let b = sample();
    let plan = build_load_plan(&b, policy()).unwrap();
    assert_eq!(plan.entry, VirtAddr::new_unchecked(0x1_0040));
    assert_eq!(plan.segments.len(), 2);
    let s0 = &plan.segments[0];
    assert_eq!(s0.vaddr, VirtAddr::new_unchecked(0x1_0000));
    assert_eq!(s0.file_data, &b[0x200..0x210]);
    assert_eq!(s0.flags.bits(), SegmentFlags::R | SegmentFlags::X);
    let s1 = &plan.segments[1];
    assert_eq!(s1.mem_size, 0x2000);
    assert_eq!(s1.file_data.len(), 8);
    assert_eq!(s1.flags.bits(), SegmentFlags::R | SegmentFlags::W);
}

#[test]
fn plan_errors() {
    let mut p = policy();
    p.max_segments = 1;
    assert!(matches!(build_load_plan(&sample(), p), Err(ElfLoadError::TooManySegments)));

    let bad_align = image(0, &[Ph { p_type: PT_LOAD, flags: PF_R, offset: 0, vaddr: 0x1000, filesz: 0, memsz: 0, align: 3 }], 0x100);
    assert_eq!(build_load_plan(&bad_align, policy()).err(), Some(ElfLoadError::Misaligned));

    let unaligned = image(0, &[Ph { p_type: PT_LOAD, flags: PF_R, offset: 0, vaddr: 0x1010, filesz: 0, memsz: 0, align: 0x1000 }], 0x100);
    assert_eq!(build_load_plan(&unaligned, policy()).err(), Some(ElfLoadError::Misaligned));

    let small_mem = image(0, &[Ph { p_type: PT_LOAD, flags: PF_R, offset: 0, vaddr: 0x1000, filesz: 0x20, memsz: 0x10, align: 0x1000 }], 0x100);
    assert_eq!(build_load_plan(&small_mem, policy()).err(), Some(ElfLoadError::OutOfBounds));

    let past_end = image(0, &[Ph { p_type: PT_LOAD, flags: PF_R, offset: 0xf0, vaddr: 0x1000, filesz: 0x20, memsz: 0x20, align: 0x1000 }], 0x100);
    assert_eq!(
        build_load_plan(&past_end, policy()).err(),
        Some(ElfLoadError::BadElf(ElfError::SegmentOutOfBounds))
    );
}

#[derive(Debug, PartialEq)]
enum Call {
    Validate(usize, usize),
    MapPages(usize, usize, u32),
    Copy(usize, usize),
    Zero(usize, usize),
    Protect(usize, usize, u32),
    Finalize,
}

struct Recorder {
    calls: RefCell<Vec<Call>>,
    refuse_map: bool,
}

impl ElfLoader for Recorder {
    type AddrSpace = ();
    type Error = ();

    fn new_user_addr_space(&self) -> Result<(), ()> {
        Ok(())
    }
    fn choose_pie_base(&self, _a: &mut (), _lo: VirtAddr, _hi: VirtAddr, _align: usize, hint: usize) -> Result<usize, ()> {
        Ok(hint)
    }
    fn validate_user_range(&self, _a: &(), vaddr: VirtAddr, len: usize) -> Result<(), ()> {
        self.calls.borrow_mut().push(Call::Validate(vaddr.as_usize(), len));
        Ok(())
    }
    fn map_anonymous(&self, _a: &mut (), vaddr: VirtAddr, len: usize, flags: SegmentFlags) -> Result<(), ()> {
        self.calls.borrow_mut().push(Call::MapPages(vaddr.as_usize(), len, flags.bits()));
        if self.refuse_map { Err(()) } else { Ok(()) }
    }
    fn protect_range(&self, _a: &mut (), vaddr: VirtAddr, len: usize, flags: SegmentFlags) -> Result<(), ()> {
        self.calls.borrow_mut().push(Call::Protect(vaddr.as_usize(), len, flags.bits()));
        Ok(())
    }
    fn copy_to_user(&self, _a: &mut (), dst: VirtAddr, src: &[u8]) -> Result<(), ()> {
        self.calls.borrow_mut().push(Call::Copy(dst.as_usize(), src.len()));
        Ok(())
    }
    fn zero_user(&self, _a: &mut (), dst: VirtAddr, len: usize) -> Result<(), ()> {
        self.calls.borrow_mut().push(Call::Zero(dst.as_usize(), len));
        Ok(())
    }
    fn finalize_image(&self, _a: &mut (), _r: &[(VirtAddr, VirtAddr)]) -> Result<(), ()> {
        self.calls.borrow_mut().push(Call::Finalize);
        Ok(())
    }
    fn page_size(&self) -> usize {
        4096
    }
}

#[test]
fn load_maps_fills_and_protects() {
    let b = sample();
    let loader = Recorder { calls: RefCell::new(Vec::new()), refuse_map: false };
    let plan = load_elf_into(&loader, &mut (), &b, policy()).unwrap();
    assert_eq!(plan.segments.len(), 2);
    let rw = SegmentFlags::R | SegmentFlags::W;
    let rx = SegmentFlags::R | SegmentFlags::X;
    assert_eq!(
        *loader.calls.borrow(),
        vec![
            Call::Validate(0x1_0000, 0x1000),
            Call::MapPages(0x1_0000, 0x1000, rx | SegmentFlags::W),
            Call::Copy(0x1_0000, 0x10),
            Call::Protect(0x1_0000, 0x1000, rx),
            Call::Validate(0x2_0000, 0x2000),
            Call::MapPages(0x2_0000, 0x2000, rw),
            Call::Copy(0x2_0000, 0x8),
            Call::Zero(0x2_0008, 0x1ff8),
            Call::Finalize,
        ]
    );
}

#[test]
fn load_refuses_writable_executable_segments() {
    let wx = image(0, &[Ph { p_type: PT_LOAD, flags: PF_R | PF_W | PF_X, offset: 0, vaddr: 0x1000, filesz: 0, memsz: 0x10, align: 0x1000 }], 0x100);
    let loader = Recorder { calls: RefCell::new(Vec::new()), refuse_map: false };
    assert_eq!(load_elf_into(&loader, &mut (), &wx, policy()).err(), Some(ElfLoadError::Unsupported));
    assert!(loader.calls.borrow().is_empty());
    let mut allow = policy();
    allow.allow_wx = true;
    assert!(load_elf_into(&loader, &mut (), &wx, allow).is_ok());
}

#[test]
fn load_reports_map_failure() {
    let loader = Recorder { calls: RefCell::new(Vec::new()), refuse_map: true };
    assert_eq!(load_elf_into(&loader, &mut (), &sample(), policy()).err(), Some(ElfLoadError::MapFailed));
}

#[test]
fn segment_mapping_rounds_to_pages() {
    let b = sample();
    let plan = build_load_plan(&b, policy()).unwrap();
    let m = segment_mapping(&plan.segments[1], 4096).unwrap();
    assert_eq!(m.start, VirtAddr::new_unchecked(0x2_0000));
    assert_eq!(m.len, 0x2000);
    assert_eq!(m.zero_start, VirtAddr::new_unchecked(0x2_0008));
    assert_eq!(m.zero_len, 0x1ff8);
    assert!(!m.protect);
    let m0 = segment_mapping(&plan.segments[0], 4096).unwrap();
    assert!(m0.protect);
    assert_eq!(m0.load_flags.bits(), SegmentFlags::R | SegmentFlags::W | SegmentFlags::X);
}

#[test]
fn heap_starts_after_highest_segment() {
    let b = sample();
    let plan = build_load_plan(&b, policy()).unwrap();
    assert_eq!(heap_start(&plan, 4096), Some(VirtAddr::new_unchecked(0x2_2000)));
    let odd = image(0, &[Ph { p_type: PT_LOAD, flags: PF_R, offset: 0, vaddr: 0x5000, filesz: 0, memsz: 0x1801, align: 0x1000 }], 0x100);
    let plan = build_load_plan(&odd, policy()).unwrap();
    assert_eq!(heap_start(&plan, 4096), Some(VirtAddr::new_unchecked(0x7000)));
    let high = image(0, &[Ph { p_type: PT_LOAD, flags: PF_R, offset: 0, vaddr: 0xffff_ffff_ffff_e000, filesz: 0, memsz: 0x1001, align: 0x1000 }], 0x100);
    let plan = build_load_plan(&high, policy()).unwrap();
    assert_eq!(heap_start(&plan, 4096), None);
}

#[test]
fn new_user_process_is_fresh() {
    let p = new_user_process(Pid::init(), VirtAddr::new_unchecked(0x4000));
    assert_eq!(p.kind, ProcessKind::User);
    assert_eq!(p.state, ProcessState::Running);
    assert_eq!(p.pid, Pid::init());
    assert!(p.parent.is_none());
    assert!(p.children.is_empty());
    assert_eq!(p.heap.brk(), VirtAddr::new_unchecked(0x4000));
    assert_eq!(p.heap.mapped_end(), VirtAddr::new_unchecked(0x4000));
}

struct Exec {
    table: RefCell<ProcessTable>,
    entries: RefCell<Vec<usize>>,
}

impl UserProcessExecutor<()> for Exec {
    fn enqueue_user(&self, proc: Process, _aspace: (), entry: VirtAddr, _stack: ProcessStackLayout) -> rv6::proc::ProcessId {
        self.entries.borrow_mut().push(entry.as_usize());
        self.table.borrow_mut().allocate(proc)
    }
}

struct Layout;

fn stack(at: usize) -> StackSpec {
    StackSpec { start: VirtAddr::new_unchecked(at), end: VirtAddr::new_unchecked(at + 0x1000), initial_sp: VirtAddr::new_unchecked(at + 0x1000) }
}

impl ProcessMemoryLayout for Layout {
    fn default_stack_layout(&self) -> ProcessStackLayout {
        ProcessStackLayout { user_stack: stack(0x7000_0000), kernel_stack: stack(0x9000_0000) }
    }
}

struct Builder {
    loader: Recorder,
    exec: Exec,
    layout: Layout,
}

impl ProcessBuilder for Builder {
    type Loader = Recorder;
    type Executor = Exec;
    type MemoryLayout = Layout;
    fn loader(&self) -> &Recorder {
        &self.loader
    }
    fn executor(&self) -> &Exec {
        &self.exec
    }
    fn memory_layout(&self) -> &Layout {
        &self.layout
    }
    fn setup_stack_memory(&self, _aspace: &mut ()) -> Result<ProcessStackLayout, ElfLoadError> {
        Ok(self.layout.default_stack_layout())
    }
    fn adjust_program_break(&self, _proc: &mut Process, _increment: isize) -> Result<VirtAddr, BreakError> {
        Err(BreakError::OutOfMemory)
    }
    fn fork(&self, parent: &Process) -> Process {
        new_user_process(parent.pid, parent.heap.brk())
    }
    fn destroy(&self, _process: Process) {}
}

fn builder(refuse_map: bool) -> Builder {
    Builder {
        loader: Recorder { calls: RefCell::new(Vec::new()), refuse_map },
        exec: Exec { table: RefCell::new(ProcessTable::new()), entries: RefCell::new(Vec::new()) },
        layout: Layout,
    }
}

#[test]
fn spawn_loads_and_enqueues_user_process() {
    let b = builder(false);
    let id = spawn_user_with_pid(&b, &sample(), Pid::init()).unwrap();
    assert_eq!(*b.exec.entries.borrow(), vec![0x1_0040]);
    let table = b.exec.table.borrow();
    let p = table.get(id).unwrap();
    assert_eq!(p.kind, ProcessKind::User);
    assert_eq!(p.state, ProcessState::Running);
    assert_eq!(p.pid, Pid::init());
    assert_eq!(p.heap.brk(), VirtAddr::new_unchecked(0x2_2000));
    for fd in 0..3 {
        assert_eq!(p.fds.get(Fd::new(fd)).copied(), Ok(FileRef::Console));
    }
    assert!(p.fds.get(Fd::new(3)).is_err());
}

#[test]
fn spawn_reports_load_errors() {
    let b = builder(false);
    assert_eq!(
        spawn_user_with_pid(&b, &[0u8; 8], Pid::init()).err(),
        Some(ProcessLoadError::ElfLoadError(ElfLoadError::BadElf(ElfError::TooShort)))
    );
    let b = builder(true);
    assert_eq!(spawn_user_with_pid(&b, &sample(), Pid::init()).err(), Some(ProcessLoadError::ElfLoadError(ElfLoadError::MapFailed)));
    assert!(b.exec.entries.borrow().is_empty());
}
