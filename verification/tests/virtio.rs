use std::cell::RefCell;

use rv6::drivers::virtio::blkdev::{
    request_buffers, DeviceFeatures, VirtioBlkDev, VirtioBlkReq, VirtioBlkReqType,
};
use rv6::drivers::virtio::virtq::{Virtq, VirtqBuffer, VirtqDescriptor, VirtqUsedElem};
use rv6::drivers::virtio::{InterruptStatus, Status, VirtioDev};
use rv6::mm::addr::DmaAddr;

fn dma(a: usize) -> DmaAddr {
    DmaAddr::new_unchecked(a)
}

struct MockDev {
    features: u32,
    status: RefCell<u32>,
    enabled: RefCell<Vec<(u32, u32)>>,
    notified: RefCell<Vec<u32>>,
    synced_heads: RefCell<Vec<u16>>,
}

impl MockDev {
    fn new(features: u32) -> Self {
        MockDev {
            features,
            status: RefCell::new(0),
            enabled: RefCell::new(Vec::new()),
            notified: RefCell::new(Vec::new()),
            synced_heads: RefCell::new(Vec::new()),
        }
    }
}

impl VirtioDev for MockDev {
    fn status(&self) -> Status {
        Status::from_bits_retain(*self.status.borrow())
    }
    fn update_status(&self, status: u32) {
        *self.status.borrow_mut() |= status;
    }
    fn read_device_features(&self, _offset: u32) -> u32 {
        self.features
    }
    fn enable_device_features(&self, offset: u32, value: u32) {
        self.enabled.borrow_mut().push((offset, value));
    }
    fn read_config_u8(&self, offset: u32) -> u8 {
        offset as u8
    }
    fn read_config_u16(&self, offset: u32) -> u16 {
        offset as u16 + 100
    }
    fn read_config_u32(&self, offset: u32) -> u32 {
        offset + 1000
    }
    fn read_config_u64(&self, _offset: u32) -> u64 {
        2048
    }
    fn allocate_virtq(&self, index: u32) -> Virtq {
        Virtq::new(index, 8, dma(0x8000_0000))
    }
    fn sync_queue(&self, vq: &Virtq) {
        let avail = vq.avail();
        let n = vq.avail_ring().len();
        let slot = (avail.idx as usize + n - 1) % n;
        self.synced_heads.borrow_mut().push(vq.avail_ring()[slot]);
    }
    fn notify(&self, index: u32) {
        self.notified.borrow_mut().push(index);
    }
    fn interrupts(&self) -> InterruptStatus {
        InterruptStatus::from_bits_retain(InterruptStatus::USED_BUFFER)
    }
    fn clear_interrupts(&self, _status: InterruptStatus) {}
}

#[test]
fn virtq_layout_places_used_ring_on_a_page() {
    let l = Virtq::layout(8, 4096);
    assert_eq!(l.desc_size, 128);
    assert_eq!(l.avail_off, 128);
    assert_eq!(l.avail_size, 4 + 2 * 9);
    assert_eq!(l.used_off, 4096);
    assert_eq!(l.used_size, 4 + 64 + 2);
    assert_eq!(l.total, 4096 + 70);
    let big = Virtq::layout(256, 4096);
    assert_eq!(big.used_off, 8192);
}

#[test]
fn virtq_new_chains_all_descriptors() {
    let vq = Virtq::new(3, 4, dma(0x8000_3000));
    assert_eq!(vq.index(), 3);
    assert_eq!(vq.free_count(), 4);
    assert_eq!(vq.pfn(4096), 0x80003);
    let next: Vec<u16> = vq.descriptors().iter().map(|d| d.next).collect();
    assert_eq!(next, vec![1, 2, 3, 0]);
    assert_eq!(vq.avail().idx, 0);
}

#[test]
fn virtq_submit_takes_free_head_and_publishes() {
    let dev = MockDev::new(0);
    let mut vq = Virtq::new(0, 4, dma(0x8000_0000));
    let bufs = [
        VirtqBuffer::Readable { addr: dma(0x1000), len: 16 },
        VirtqBuffer::Writeable { addr: dma(0x2000), len: 512 },
        VirtqBuffer::Writeable { addr: dma(0x3000), len: 1 },
    ];
    vq.submit(&dev, &bufs);
    assert_eq!(vq.free_count(), 1);
    let d = vq.descriptors();
    assert_eq!(d[0].flags, VirtqDescriptor::NEXT);
    assert_eq!(d[0].len, 16);
    assert_eq!(d[1].flags, VirtqDescriptor::NEXT | VirtqDescriptor::WRITE);
    assert_eq!(d[2].flags, VirtqDescriptor::WRITE);
    assert_eq!(d[2].addr, dma(0x3000));
    assert_eq!(vq.avail_ring()[0], 0);
    assert_eq!(vq.avail().idx, 1);
    assert_eq!(*dev.notified.borrow(), vec![0]);
    assert_eq!(*dev.synced_heads.borrow(), vec![0]);
}

#[test]
fn virtq_reclaim_returns_chain_to_free_list() {
    let dev = MockDev::new(0);
    let mut vq = Virtq::new(0, 4, dma(0x8000_0000));
    let two = [
        VirtqBuffer::Readable { addr: dma(0x1000), len: 8 },
        VirtqBuffer::Writeable { addr: dma(0x2000), len: 8 },
    ];
    vq.submit(&dev, &two);
    vq.submit(&dev, &two);
    assert_eq!(vq.free_count(), 0);
    // The device finished the second chain (head 2) first, then the first one (head 0).
    let mut used = [VirtqUsedElem { id: 0, len: 0 }; 4];
    used[0] = VirtqUsedElem { id: 2, len: 8 };
    used[1] = VirtqUsedElem { id: 0, len: 8 };
    vq.reclaim(1, &used);
    assert_eq!(vq.free_count(), 2);
    vq.reclaim(2, &used);
    assert_eq!(vq.free_count(), 4);
    // The freed descriptors are handed out again, most recently reclaimed first.
    let one = [VirtqBuffer::Readable { addr: dma(0x5000), len: 4 }];
    vq.submit(&dev, &one);
    assert_eq!(vq.avail_ring()[2], 0);
    vq.submit(&dev, &one);
    assert_eq!(vq.avail_ring()[3], 1);
    vq.submit(&dev, &one);
    assert_eq!(vq.avail_ring()[0], 2);
}

#[test]
fn blk_request_chains() {
    let r = request_buffers(VirtioBlkReqType::In, dma(0x100), dma(0x9000), 512);
    assert_eq!(
        r,
        vec![
            VirtqBuffer::Readable { addr: dma(0x100), len: 16 },
            VirtqBuffer::Writeable { addr: dma(0x9000), len: 512 },
            VirtqBuffer::Writeable { addr: dma(0x110), len: 1 },
        ]
    );
    let w = request_buffers(VirtioBlkReqType::Out, dma(0x100), dma(0x9000), 512);
    assert_eq!(w[1], VirtqBuffer::Readable { addr: dma(0x9000), len: 512 });
    let f = request_buffers(VirtioBlkReqType::Flush, dma(0x100), dma(0x9000), 512);
    assert_eq!(f.len(), 2);
    let id = request_buffers(VirtioBlkReqType::GetId, dma(0x100), dma(0x9000), 20);
    assert_eq!(id[1], VirtqBuffer::Writeable { addr: dma(0x9000), len: 20 });
}

#[test]
fn blk_request_header_bytes() {
    let req = VirtioBlkReq::new(VirtioBlkReqType::GetId, 0x0102_0304_0506_0708);
    assert_eq!(
        req.header_bytes(),
        vec![8, 0, 0, 0, 0, 0, 0, 0, 8, 7, 6, 5, 4, 3, 2, 1]
    );
    assert_eq!(VirtioBlkReqType::SecureErase.code(), 14);
    assert_eq!(VirtioBlkReqType::Flush.code(), 4);
}

#[test]
fn blk_feature_negotiation_keeps_supported_bits() {
    let f = DeviceFeatures::negotiate(0xffff_ffff);
    assert_eq!(f.bits(), DeviceFeatures::SUPPORTED);
    let g = DeviceFeatures::negotiate(DeviceFeatures::RO | DeviceFeatures::BLK_SIZE);
    assert_eq!(g.bits(), DeviceFeatures::BLK_SIZE);
}

#[test]
fn blk_device_setup_and_transfer() {
    let dev = MockDev::new(DeviceFeatures::SIZE_MAX | DeviceFeatures::GEOMETRY | DeviceFeatures::RO);
    let mut blk = VirtioBlkDev::new(dev);
    assert_eq!(blk.features().bits(), DeviceFeatures::SIZE_MAX | DeviceFeatures::GEOMETRY);
    let cfg = blk.config();
    assert_eq!(cfg.capacity, 2048);
    assert_eq!(cfg.size_max, 1008);
    assert_eq!(cfg.seg_max, 0);
    assert_eq!(cfg.geometry.cylinders, 116);
    assert_eq!(cfg.geometry.heads, 18);
    assert_eq!(cfg.blk_size, 0);
    let status = blk.device().status().bits();
    assert_eq!(status, Status::ACKNOWLEDGE | Status::DRIVER | Status::DRIVER_OK);
    assert_eq!(*blk.device().enabled.borrow(), vec![(0, DeviceFeatures::SIZE_MAX | DeviceFeatures::GEOMETRY)]);
    blk.transfer(VirtioBlkReqType::In, dma(0x100), dma(0x9000), 512);
    assert_eq!(*blk.device().notified.borrow(), vec![0]);
}

#[test]
fn virtq_reported_heads_checked_before_reclaim() {
    let dev = MockDev::new(0);
    let mut vq = Virtq::new(0, 4, dma(0x8000_0000));
    let two = [
        VirtqBuffer::Readable { addr: dma(0x1000), len: 8 },
        VirtqBuffer::Writeable { addr: dma(0x2000), len: 8 },
    ];
    vq.submit(&dev, &two);
    assert!(vq.is_in_flight(0));
    assert!(!vq.is_in_flight(1));
    assert!(!vq.is_in_flight(2));
    assert!(!vq.is_in_flight(9));
    let mut used = [VirtqUsedElem { id: 0, len: 0 }; 4];
    // Nothing reported yet.
    assert!(vq.reported_heads_valid(0, &used));
    // Head 0 is in flight; head 1 is the middle of its chain; head 2 is free.
    assert!(vq.reported_heads_valid(1, &used));
    used[0] = VirtqUsedElem { id: 1, len: 8 };
    assert!(!vq.reported_heads_valid(1, &used));
    used[0] = VirtqUsedElem { id: 2, len: 8 };
    assert!(!vq.reported_heads_valid(1, &used));
    // The same chain reported twice.
    used[0] = VirtqUsedElem { id: 0, len: 8 };
    used[1] = VirtqUsedElem { id: 0, len: 8 };
    assert!(!vq.reported_heads_valid(2, &used));
    assert!(vq.reported_heads_valid(1, &used));
    vq.reclaim(1, &used);
    assert!(!vq.is_in_flight(0));
    assert_eq!(vq.free_count(), 4);
}
