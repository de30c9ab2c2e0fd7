use rv6::riscv::addr::{PhysAddr, VirtAddr};
use rv6::riscv::mmu::{Entry, EntryFlags, MapError, OffsetPageMapper, PageSize, PageTable};
use rv6::riscv::walk::{identity_map_pages, Translation};
use rv6::riscv::registers::{SatpMode, Satp, SiFlags, Sie, Sip, Sstatus, SstatusFlags};

#[test]
fn entry_flag_queries() {
    let e = Entry::from_bits(EntryFlags::VALID | EntryFlags::READ | EntryFlags::USER | EntryFlags::DIRTY);
    assert!(e.is_valid());
    assert!(e.is_read());
    assert!(!e.is_write());
    assert!(!e.is_exec());
    assert!(e.is_user());
    assert!(!e.is_global());
    assert!(!e.is_accessed());
    assert!(e.is_dirty());
    assert!(e.is_leaf());
    assert_eq!(
        e.flags().bits(),
        EntryFlags::VALID | EntryFlags::READ | EntryFlags::USER | EntryFlags::DIRTY
    );
    let table = Entry::from_bits(EntryFlags::VALID);
    assert!(!table.is_leaf());
}

#[test]
fn entry_ppn_roundtrip_keeps_flags() {
    let mut e = Entry::from_bits(EntryFlags::VALID | EntryFlags::RW | EntryFlags::GLOBAL);
    e.set_ppn(0x8_0200);
    assert_eq!(e.get_ppn(), 0x8_0200);
    assert_eq!(e.bits(), (0x8_0200 << 10) | EntryFlags::VALID | EntryFlags::RW | EntryFlags::GLOBAL);
    // Only 44 bits of PPN are stored.
    e.set_ppn(0xffff_ffff_ffff_ffff);
    assert_eq!(e.get_ppn(), 0xfff_ffff_ffff);
    assert!(e.is_valid() && e.is_write() && e.is_global());
}

#[test]
fn entry_set_flags_replaces_low_bits() {
    let mut e = Entry::from_bits((0x1234 << 10) | EntryFlags::VALID | EntryFlags::EXEC | EntryFlags::USER);
    e.set_flags(EntryFlags::from_bits_retain(EntryFlags::READ));
    assert_eq!(e.bits(), (0x1234 << 10) | EntryFlags::READ);
    e.clear();
    e.set_flags(EntryFlags::from_bits_retain(
        EntryFlags::VALID | EntryFlags::READ | EntryFlags::USER | EntryFlags::GLOBAL,
    ));
    assert_eq!(
        e.flags().bits(),
        EntryFlags::VALID | EntryFlags::READ | EntryFlags::USER | EntryFlags::GLOBAL
    );
    e.clear();
    assert_eq!(e.bits(), 0);
}

#[test]
fn page_table_entries() {
    let mut t = PageTable::new();
    assert_eq!(t.get_entry(511).map(|e| e.bits()), Some(0));
    assert!(t.get_entry(512).is_none());
    assert!(t.set_entry(7, Entry::from_bits(EntryFlags::VALID)));
    assert!(!t.set_entry(600, Entry::from_bits(EntryFlags::VALID)));
    assert!(t.get_entry(7).unwrap().is_valid());
    assert_eq!(t.iter().filter(|e| e.is_valid()).count(), 1);
    t.clear();
    assert_eq!(t.iter().filter(|e| e.is_valid()).count(), 0);
}

#[test]
fn page_sizes_and_errors() {
    assert_eq!(PageSize::Kb.to_table_level(), 0);
    assert_eq!(PageSize::Tb.to_table_level(), 3);
    assert_ne!(MapError::AlreadyMapped, MapError::AllocationFailed);
}

#[test]
fn offset_mapper_translates() {
    let m = OffsetPageMapper::new(VirtAddr::new(0x4000_0000));
    assert_eq!(m.phys_to_virt(PhysAddr::new(0x1234)).data(), 0x4000_1234);
}

#[test]
fn status_registers_decode() {
    let s = Sstatus::read(0xffff_ffff_ffff_ffff);
    assert_eq!(s.bits(), SstatusFlags::ALL);
    assert!(Sstatus::read(1 << 1).contains(SstatusFlags::SIE));
    assert!(!Sstatus::read(1 << 1).contains(SstatusFlags::SUM));
    assert_eq!(Sie::read(0xffff).bits(), SiFlags::SSIE | SiFlags::STIE | SiFlags::SEIE);
    assert_eq!(Sip::read(1 << 5).bits(), SiFlags::STIE);
    let mut f = Sie::read(0);
    f.insert(SiFlags::SEIE);
    assert_eq!(Sie::write(f), 0x200);
    let raw = Sie::update(0x22, |mut v: SiFlags| {
        v.remove(SiFlags::SSIE);
        v
    });
    assert_eq!(raw, 0x20);
    assert_eq!(Sip::write(Sip::read(0x2)), 0x2);
}

#[test]
fn satp_fields() {
    let raw: u64 = (9 << 60) | (0xabcd << 44) | 0x8_0000;
    assert_eq!(Satp::read_ppn(raw), 0x8_0000);
    assert_eq!(Satp::read_asid(raw), 0xabcd);
    assert_eq!(Satp::read_mode(raw), SatpMode::Sv48);
    assert_eq!(Satp::read_mode(0), SatpMode::Bare);
    assert_eq!(SatpMode::from_code(8), SatpMode::Sv39);
    assert_eq!(SatpMode::Sv32.code(), 1);
}

#[test]
fn map_leaf_then_translate() {
    let mut e = Entry::from_bits(0);
    let paddr = PhysAddr::new(0x8020_3456);
    let flags = EntryFlags::from_bits_retain(EntryFlags::RW | EntryFlags::VALID | EntryFlags::DIRTY);
    assert!(e.map_leaf(paddr, flags).is_ok());
    assert!(e.is_valid());
    assert!(e.is_leaf());
    assert_eq!(e.get_ppn(), 0x80203);
    assert_eq!(e.bits(), (0x80203 << 10) | EntryFlags::RW | EntryFlags::VALID);
    let vaddr = VirtAddr::new(0x4000_0abc);
    match e.translate(vaddr, 0) {
        Translation::Leaf(a) => assert_eq!(a.data(), 0x8020_3abc),
        _ => panic!("expected a leaf"),
    }
    // Same flags again: accepted; other flags: refused and nothing changes.
    assert!(e.map_leaf(PhysAddr::new(0x9000_0000), flags).is_ok());
    assert_eq!(e.get_ppn(), 0x90000);
    let before = e.bits();
    assert_eq!(
        e.map_leaf(paddr, EntryFlags::from_bits_retain(EntryFlags::READ)),
        Err(MapError::AlreadyMapped)
    );
    assert_eq!(e.bits(), before);
}

#[test]
fn superpage_translation_takes_low_page_bits() {
    let e = Entry::from_bits((0x80000 << 10) | EntryFlags::VALID | EntryFlags::RWX);
    let vaddr = VirtAddr::new(0x0012_3456);
    match e.translate(vaddr, 1) {
        Translation::Leaf(a) => assert_eq!(a.data(), 0x8012_3456),
        _ => panic!("expected a leaf"),
    }
    match e.translate(vaddr, 0) {
        Translation::Leaf(a) => assert_eq!(a.data(), 0x8000_0456),
        _ => panic!("expected a leaf"),
    }
}

#[test]
fn table_entries_lead_to_next_table() {
    let mut e = Entry::from_bits(0xffff_ffff_ffff_ffff);
    e.install_table(PhysAddr::new(0x8765_4000));
    assert_eq!(e.bits(), (0x87654 << 10) | 1);
    assert!(e.is_valid());
    assert!(!e.is_leaf());
    assert_eq!(e.table_addr().data(), 0x8765_4000);
    match e.translate(VirtAddr::new(0x1000), 2) {
        Translation::Table(a) => assert_eq!(a.data(), 0x8765_4000),
        _ => panic!("expected a table"),
    }
    assert!(matches!(Entry::from_bits(0).translate(VirtAddr::new(0x1000), 3), Translation::Invalid));
}

#[test]
fn identity_range_covers_whole_pages() {
    let (first, count) = identity_map_pages(PhysAddr::new(0x8000_0123), PhysAddr::new(0x8000_3001));
    assert_eq!(first.data(), 0x8000_0000);
    assert_eq!(count, 4);
    let (first, count) = identity_map_pages(PhysAddr::new(0x1000), PhysAddr::new(0x1000));
    assert_eq!(first.data(), 0x1000);
    assert_eq!(count, 0);
}

#[test]
fn page_table_entry_mut() {
    let mut t = PageTable::new();
    if let Some(e) = t.get_entry_mut(7) {
        e.install_table(PhysAddr::new(0x2000));
    }
    assert_eq!(t.get_entry(7).unwrap().get_ppn(), 2);
    assert!(t.get_entry_mut(512).is_none());
}

#[test]
fn remap_with_user_flags_is_accepted() {
    let mut e = Entry::from_bits(0);
    let flags = EntryFlags::from_bits_retain(EntryFlags::READ | EntryFlags::USER);
    assert!(e.map_leaf(PhysAddr::new(0x1000), flags).is_ok());
    assert!(e.map_leaf(PhysAddr::new(0x1000), flags).is_ok());
    assert_eq!(e.flags().bits(), EntryFlags::VALID | EntryFlags::READ | EntryFlags::USER);
}
