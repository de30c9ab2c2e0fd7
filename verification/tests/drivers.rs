use rv6::drivers::fw_cfg::check_device;
use rv6::drivers::ns16550::{can_transmit, data_ready, interrupt_enable_value};
use rv6::drivers::of_match::{bytes_eq, compatible_with, find_driver};
use rv6::drivers::plic::{
    claim_offset, claimed_irq, disable_word, enable_offset, enable_word, irq_mask,
    priority_offset, threshold_offset,
};
use rv6::drivers::syscon::{refers_to, GenericSyscon, SysconRegister};
use rv6::drivers::virtio::blkdev::parse_device_id;
use rv6::drivers::virtio::mmio::{probe, MmioDeviceKind, MmioProbeError};
use rv6::mm::addr::{PhysAddr, VirtAddr};
use rv6::mm::mmio::IoMapping;
use rv6::mm::phys::PhysicalAddress;

#[test]
fn plic_register_layout() {
    assert_eq!(priority_offset(10), 40);
    assert_eq!(threshold_offset(), 0x20_1000);
    assert_eq!(claim_offset(), 0x20_1004);
    assert_eq!(enable_offset(10), 0x2080);
    assert_eq!(enable_offset(33), 0x2084);
    assert_eq!(irq_mask(33), 0b10);
}

#[test]
fn plic_enable_words() {
    assert_eq!(enable_word(0, 10), 1 << 10);
    assert_eq!(enable_word(1 << 10, 10), 1 << 10);
    assert_eq!(enable_word(0b1, 33), 0b11);
    assert_eq!(disable_word(0xffff_ffff, 31), 0x7fff_ffff);
    assert_eq!(disable_word(enable_word(0b100, 1), 1), 0b100);
    assert_eq!(claimed_irq(0), None);
    assert_eq!(claimed_irq(10), Some(10));
}

#[test]
fn uart_line_status() {
    assert!(data_ready(0x61));
    assert!(!data_ready(0x60));
    assert!(can_transmit(0x60));
    assert!(!can_transmit(0x01));
    assert_eq!(interrupt_enable_value(true), 1);
    assert_eq!(interrupt_enable_value(false), 0);
}

#[test]
fn syscon_registers() {
    assert_eq!(
        SysconRegister::from_properties(Some(0), Some(0x5555), None),
        Some(SysconRegister { offset: 0, value: 0x5555, mask: u32::MAX })
    );
    assert_eq!(
        SysconRegister::from_properties(Some(4), Some(0x7777), Some(0xffff)),
        Some(SysconRegister { offset: 4, value: 0x7777, mask: 0xffff })
    );
    assert_eq!(SysconRegister::from_properties(None, Some(1), None), None);
    assert_eq!(SysconRegister::from_properties(Some(1), None, None), None);
    assert!(refers_to(Some(3), 3));
    assert!(!refers_to(Some(4), 3));
    assert!(!refers_to(None, 3));
    let map = IoMapping::new_unchecked(VirtAddr::new_unchecked(0x1000), 0x1000, PhysAddr::new_unchecked(0x10_0000));
    let poweroff = SysconRegister::from_properties(Some(0), Some(0x5555), None);
    let sc = GenericSyscon::new(map, poweroff, None);
    assert_eq!(sc.poweroff_write(), Some((0, 0x5555)));
    assert_eq!(sc.reboot_write(), None);
    assert_eq!(sc.regmap().size(), 0x1000);
}

#[test]
fn driver_matching() {
    assert!(bytes_eq(b"abc", b"abc"));
    assert!(!bytes_eq(b"abc", b"abd"));
    assert!(!bytes_eq(b"abc", b"ab"));
    let node: Vec<&[u8]> = vec![b"sifive,plic-1.0.0", b"riscv,plic0"];
    let plic: Vec<&[u8]> = vec![b"riscv,plic0"];
    let uart: Vec<&[u8]> = vec![b"ns16550a"];
    let syscon: Vec<&[u8]> = vec![b"syscon"];
    assert!(compatible_with(&node, &plic));
    assert!(!compatible_with(&node, &uart));
    let table: Vec<&[&[u8]]> = vec![&syscon, &uart, &plic];
    assert_eq!(find_driver(&node, &table), Some(2));
    let other: Vec<&[u8]> = vec![b"virtio,mmio"];
    assert_eq!(find_driver(&other, &table), None);
    let both: Vec<&[u8]> = vec![b"ns16550a", b"syscon"];
    assert_eq!(find_driver(&both, &table), Some(0));
}

#[test]
fn fw_cfg_device_check() {
    assert_eq!(check_device(b"QEMU", 0x3), Ok(()));
    assert_eq!(check_device(b"QEMX", 0x3), Err("Invalid signature"));
    assert_eq!(check_device(b"QEM", 0x3), Err("Invalid signature"));
    assert_eq!(check_device(b"QEMU", 0x1), Err("DMA not supported"));
}

#[test]
fn virtio_mmio_probe() {
    let magic = u32::from_le_bytes(*b"virt");
    assert_eq!(probe(magic, 1, 2), Ok(MmioDeviceKind::Block));
    assert_eq!(probe(magic, 1, 18), Ok(MmioDeviceKind::Unsupported(18)));
    assert_eq!(probe(magic, 1, 0), Err(MmioProbeError::DeviceNotFound));
    assert_eq!(probe(magic, 2, 2), Err(MmioProbeError::InvalidVersion));
    assert_eq!(probe(0, 1, 2), Err(MmioProbeError::InvalidMagic));
    assert_eq!(MmioProbeError::InvalidMagic.message(), "invalid virtio-mmio magic");
}

#[test]
fn block_device_id() {
    let mut buf = [0u8; 20];
    buf[..6].copy_from_slice(b"disk-1");
    assert_eq!(parse_device_id(&buf), Some(&b"disk-1"[..]));
    assert_eq!(parse_device_id(&[0u8; 20]), None);
    assert_eq!(parse_device_id(&[b'x'; 20]), None);
}

#[test]
fn physical_address_arithmetic() {
    let a = PhysicalAddress::new(0x8000_0000);
    assert_eq!(usize::from(a + 0x1000), 0x8000_1000);
    assert_eq!(usize::from(a + PhysicalAddress::new(0x10)), 0x8000_0010);
    assert_eq!(usize::from(a - 0x1000), 0x7fff_f000);
    assert_eq!(usize::from(a - PhysicalAddress::new(0x8000_0000)), 0);
    assert_eq!(PhysicalAddress::from(5usize), PhysicalAddress::new(5));
    assert_eq!(a.to_hex_string(), "0000000080000000");
    assert_eq!(PhysicalAddress::new(0xdead_beef).to_hex_string(), "00000000deadbeef");
}
