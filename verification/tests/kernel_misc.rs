use rv6::initrd::{decode_cell_pair, initrd_range, match_cpio_entry, CpioStep, Initrd, InitrdError};
use rv6::irq::{IrqHandler, IrqReturn, IrqTable};
use rv6::ksyms::{lookup_symbol, resolve_symbol};
use rv6::mm::addr::{DmaAddr, PhysAddr, VirtAddr};
use rv6::mm::dma::{DmaBuf, DmaSlice};
use rv6::mm::mmio::IoMapping;
use rv6::proc::{reap_child, fork_process, Pid, Process, ProcessHeap, ProcessKind, ProcessState, ProcessTable};
use rv6::syscall::{break_errno, cstr_len, Errno, UserPtr};
use rv6::proc::BreakError;
use rv6::vfs::fd::{Fd, FdTable, OpenFlags, FD_MAX};

#[test]
fn symbol_lookup() {
    let offsets = [0x1000usize, 0x1010, 0x1040, 0x1100];
    assert_eq!(lookup_symbol(&offsets, 0x1000), Some((0, 0x1000)));
    assert_eq!(lookup_symbol(&offsets, 0x1045), Some((2, 0x1040)));
    assert_eq!(lookup_symbol(&offsets, 0x1100), None);
    assert_eq!(lookup_symbol(&offsets, 0x0fff), None);
    let markers = [0usize, 4, 9, 12];
    let names = b"mainkinitfoo";
    assert_eq!(resolve_symbol(&offsets, &markers, names, 0x1012), Some((&b"kinit"[..], 2)));
    assert_eq!(resolve_symbol(&offsets, &markers, names, 0x2000), None);
}

#[test]
fn initrd_location() {
    let start = [0, 0, 0, 0, 0x84, 0, 0, 0];
    let end = [0, 0, 0, 0, 0x84, 0x10, 0, 0];
    assert_eq!(decode_cell_pair(&start), Some(0x8400_0000));
    assert_eq!(decode_cell_pair(&[1, 0, 0, 0, 0, 0, 0, 2]), Some(0x0100_0000_0000_0002));
    assert_eq!(decode_cell_pair(&[0, 0, 0, 1]), None);
    let (pa, len) = initrd_range(Some(&start), Some(&end)).unwrap();
    assert_eq!(pa, PhysAddr::new_unchecked(0x8400_0000));
    assert_eq!(len, 0x10_0000);
    assert_eq!(initrd_range(Some(&end), Some(&start)).err(), Some(InitrdError::NotFound));
    assert_eq!(initrd_range(None, Some(&end)).err(), Some(InitrdError::NotFound));
    let data = [1u8, 2, 3];
    assert_eq!(Initrd::new(&data).data(), &data);
    assert_eq!(InitrdError::NotFound.message(), "initrd not reference in FDT");
}

struct Count(std::cell::Cell<u32>);

impl IrqHandler for Count {
    fn handle(&self) -> IrqReturn {
        self.0.set(self.0.get() + 1);
        IrqReturn::Handled
    }
}

#[test]
fn irq_dispatch() {
    let mut t: IrqTable<Count> = IrqTable::new();
    assert_eq!(t.dispatch_irq(10), IrqReturn::Unhandled);
    t.request_irq(10, Count(std::cell::Cell::new(0)));
    assert_eq!(t.dispatch_irq(10), IrqReturn::Handled);
    assert_eq!(t.dispatch_irq(11), IrqReturn::Unhandled);
    assert_eq!(t.dispatch_irq(1023), IrqReturn::Unhandled);
}

#[test]
fn mmio_window() {
    let m = IoMapping::new_unchecked(VirtAddr::new_unchecked(0x1000_0000), 0x100, PhysAddr::new_unchecked(0x1000_0000));
    assert_eq!(m.size(), 0x100);
    assert_eq!(m.virt(), VirtAddr::new_unchecked(0x1000_0000));
    assert_eq!(m.phys(), PhysAddr::new_unchecked(0x1000_0000));
    assert!(m.access_ok(0xfc, 4));
    assert!(!m.access_ok(0xfd, 4));
    assert!(!m.access_ok(usize::MAX, 2));
    assert_eq!(m.register_addr(0x10, 4), VirtAddr::new_unchecked(0x1000_0010));
}

#[test]
fn dma_descriptors() {
    let b = DmaBuf::new_unchecked(0xffff_0000, DmaAddr::new_unchecked(0x8000_0000), 64, 8);
    assert_eq!((b.cpu_addr(), b.dma_addr(), b.size(), b.align()), (0xffff_0000, DmaAddr::new_unchecked(0x8000_0000), 64, 8));
    let s = DmaSlice::new_unchecked(DmaAddr::new_unchecked(0x9000), 0, 0);
    assert!(s.is_empty());
    assert_eq!(s.len(), 0);
    assert_eq!(s.size(), 0);
    assert_eq!(s.dma_addr(), DmaAddr::new_unchecked(0x9000));
}

#[test]
fn syscall_helpers() {
    assert_eq!(cstr_len(b"/init\0garbage"), Ok(5));
    assert_eq!(cstr_len(b"\0"), Ok(0));
    assert_eq!(cstr_len(b"abc"), Err(Errno::Inval));
    assert_eq!(break_errno(BreakError::OutOfMemory), Errno::NoMem);
    assert_eq!(break_errno(BreakError::InvalidIncrement), Errno::Inval);
    let p: UserPtr<u8> = UserPtr::new(0x4000);
    assert_eq!(p.addr(), 0x4000);
}

#[test]
fn fd_table_allocation() {
    let mut t = FdTable::with_stdio("in", "out", "err");
    assert_eq!(t.get(Fd::new(1)), Ok(&"out"));
    assert_eq!(t.get(Fd::new(3)), Err(Errno::BadF));
    assert_eq!(t.get(Fd::new(FD_MAX)), Err(Errno::BadF));
    let fd = t.allocate("file").unwrap();
    assert_eq!(fd.as_usize(), 3);
    assert_eq!(t.close(Fd::new(1)), Ok(()));
    assert_eq!(t.close(Fd::new(1)), Err(Errno::BadF));
    assert_eq!(t.allocate("again").unwrap().as_usize(), 1);
    let mut full: FdTable<u32> = FdTable::empty();
    for i in 0..FD_MAX {
        assert_eq!(full.allocate(i as u32).unwrap().as_usize(), i);
    }
    assert_eq!(full.allocate(99).err(), Some(Errno::MFile));
    let f = OpenFlags::from_bits_truncate(0xff);
    assert_eq!(f.bits(), OpenFlags::READ | OpenFlags::WRITE);
    assert!(f.contains(OpenFlags::WRITE));
}

fn process(pid: Pid) -> Process {
    Process {
        kind: ProcessKind::User,
        state: ProcessState::Running,
        pid,
        parent: None,
        children: Vec::new(),
        heap: ProcessHeap::new(VirtAddr::new_unchecked(0)),
        fds: FdTable::empty(),
    }
}

#[test]
fn wait_collects_exited_child() {
    let mut t = ProcessTable::new();
    let p = t.alloc_pid();
    let parent = t.allocate(process(p));
    let c1 = t.alloc_pid();
    let (a, _) = fork_process(&mut t, parent, process(c1));
    let c2 = t.alloc_pid();
    let (b, _) = fork_process(&mut t, parent, process(c2));
    t.set_state(a, ProcessState::Zombie { exit_code: 3 });
    let child = reap_child(&mut t, parent, a);
    assert_eq!(child.state, ProcessState::Zombie { exit_code: 3 });
    assert!(t.get(a).is_none());
    assert_eq!(t.get(parent).unwrap().children, vec![b]);
}

#[test]
fn open_flags_gate_access() {
    let ro = OpenFlags::from_bits_truncate(OpenFlags::READ);
    assert_eq!(ro.check_read(), Ok(()));
    assert_eq!(ro.check_write(), Err(Errno::BadF));
    let rw = OpenFlags::from_bits_truncate(OpenFlags::READ | OpenFlags::WRITE);
    assert_eq!(rw.check_write(), Ok(()));
    assert_eq!(OpenFlags::from_bits_truncate(0).check_read(), Err(Errno::BadF));
}

fn archive(files: &[(&str, &[u8])]) -> Vec<u8> {
    let inputs = files
        .iter()
        .map(|(name, data)| (cpio::NewcBuilder::new(name), std::io::Cursor::new(data.to_vec())));
    cpio::write_cpio(inputs, Vec::new()).unwrap()
}

#[test]
fn initrd_file_lookup() {
    let data = archive(&[("etc/motd", b"hello"), ("init", b"\x7fELF-init")]);
    let initrd = Initrd::new(&data);
    assert_eq!(initrd.find_file("init"), Some(b"\x7fELF-init".to_vec()));
    assert_eq!(initrd.find_file("etc/motd"), Some(b"hello".to_vec()));
    assert_eq!(initrd.find_file("missing"), None);
    assert_eq!(Initrd::new(b"not an archive").find_file("init"), None);
}

#[test]
fn cpio_entry_decisions() {
    let rest: &[u8] = &[1, 2, 3];
    assert!(matches!(match_cpio_entry(b"TRAILER!!!".to_vec(), true, vec![], rest, b"init"), CpioStep::End));
    match match_cpio_entry(b"init".to_vec(), false, vec![7, 8], rest, b"init") {
        CpioStep::Found(d) => assert_eq!(d, vec![7, 8]),
        _ => panic!("expected the file"),
    }
    match match_cpio_entry(b"other".to_vec(), false, vec![7, 8], rest, b"init") {
        CpioStep::Next(n) => assert_eq!(n, &[1, 2, 3]),
        _ => panic!("expected the next entry"),
    }
}
