use rv6::drivers::fw_cfg::{find_file, DmaCompletion, FwCfgDmaAccess, FwCfgDmaAccessControl, FwCfgFile};
use rv6::drivers::ramfb::{screen_config, RamFbCfg, FOURCC_XR24};

fn entry(size: u32, selector: u16, name: &str) -> Vec<u8> {
    let mut e = Vec::new();
    e.extend_from_slice(&size.to_be_bytes());
    e.extend_from_slice(&selector.to_be_bytes());
    e.extend_from_slice(&[0, 0]);
    let mut n = name.as_bytes().to_vec();
    n.resize(56, 0);
    e.extend_from_slice(&n);
    e
}

#[test]
fn control_word_selects_item() {
    let c = FwCfgDmaAccessControl::select(0x19);
    assert_eq!(c.bits(), 0x0019_0008);
    let read = FwCfgDmaAccessControl::for_access(Some(0x19), FwCfgDmaAccessControl::READ);
    assert_eq!(read.bits(), 0x0019_000a);
    let next = FwCfgDmaAccessControl::for_access(None, FwCfgDmaAccessControl::WRITE);
    assert_eq!(next.bits(), 0x10);
}

#[test]
fn access_descriptor_is_big_endian() {
    let a = FwCfgDmaAccess::new(FwCfgDmaAccessControl::select(0x20), 28, 0x8000_1234);
    assert_eq!(
        a.to_bytes(),
        vec![0, 0x20, 0, 8, 0, 0, 0, 28, 0, 0, 0, 0, 0x80, 0, 0x12, 0x34]
    );
}

#[test]
fn dma_completion_states() {
    assert_eq!(FwCfgDmaAccess::completion(0), DmaCompletion::Done);
    assert_eq!(FwCfgDmaAccess::completion(0x0019_0000), DmaCompletion::Done);
    assert_eq!(FwCfgDmaAccess::completion(1), DmaCompletion::Failed);
    assert_eq!(FwCfgDmaAccess::completion(0x0a), DmaCompletion::Pending);
}

#[test]
fn file_directory_lookup() {
    let mut dir = entry(4, 0x20, "etc/boot-fail-wait");
    dir.extend(entry(28, 0x25, "etc/ramfb"));
    dir.extend(entry(9, 0x26, "etc/ramfb"));
    let f = find_file(&dir, "etc/ramfb").unwrap();
    assert_eq!(f.size, 28);
    assert_eq!(f.selector, 0x25);
    assert!(find_file(&dir, "etc/ram").is_none());
    assert!(find_file(&dir, "etc/ramfbx").is_none());
    let one = FwCfgFile::parse(&entry(1, 2, "opt/x"));
    assert!(one.name_matches("opt/x"));
    assert!(!one.name_matches("opt/x\0"));
}

#[test]
fn ramfb_configuration_block() {
    let c = RamFbCfg::new(0x8000_0000, FOURCC_XR24, 1024, 768);
    let b = c.to_bytes();
    assert_eq!(b.len(), 28);
    assert_eq!(&b[0..8], &[0, 0, 0, 0, 0x80, 0, 0, 0]);
    assert_eq!(&b[8..12], b"42RX");
    assert_eq!(&b[12..16], &[0, 0, 0, 0]);
    assert_eq!(&b[16..20], &[0, 0, 4, 0]);
    assert_eq!(&b[20..24], &[0, 0, 3, 0]);
    assert_eq!(screen_config(0x8000_0000), c);
    assert_eq!(FOURCC_XR24, u32::from_le_bytes(*b"XR24"));
}
