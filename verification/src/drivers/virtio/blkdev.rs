//! VirtIO block device driver: feature negotiation, configuration and request submission.
//!
//! A request is a chain of three buffers: the request header (read by the device), the data
//! buffer if the request carries data, and the status byte (written by the device).
use vstd::prelude::*;
use crate::drivers::virtio::{VirtioDev, VirtioDriver, Status};
use crate::drivers::virtio::virtq::{Virtq, VirtqBuffer, desc_for};
use crate::mm::addr::DmaAddr;
use crate::initrd::pow256;

verus! {

/// Supported request types for a VirtIO block device.
#[derive(Debug, Clone, Copy, PartialEq, Eq, Structural)]
pub enum VirtioBlkReqType {
    /// Read sectors from the device.
    In,
    /// Write sectors to the device.
    Out,
    /// Flush pending writes to the device.
    Flush,
    /// Queries the device's ID.
    GetId,
    /// Queries the device's lifetime information.
    GetLifetime,
    /// Discards sectors.
    Discard,
    /// Write zeroes to the device.
    WriteZeroes,
    /// Securely erases the contents of this device.
    SecureErase,
}

/// The on-wire code of each request type.
pub open spec fn req_code(k: VirtioBlkReqType) -> u32 {
    match k {
        VirtioBlkReqType::In => 0,
        VirtioBlkReqType::Out => 1,
        VirtioBlkReqType::Flush => 4,
        VirtioBlkReqType::GetId => 8,
        VirtioBlkReqType::GetLifetime => 10,
        VirtioBlkReqType::Discard => 11,
        VirtioBlkReqType::WriteZeroes => 13,
        VirtioBlkReqType::SecureErase => 14,
    }
}

impl VirtioBlkReqType {
    /// The on-wire code of this request type.
    pub fn code(self) -> (r: u32)
        ensures
            r == req_code(self),
    {
        match self {
            VirtioBlkReqType::In => 0,
            VirtioBlkReqType::Out => 1,
            VirtioBlkReqType::Flush => 4,
            VirtioBlkReqType::GetId => 8,
            VirtioBlkReqType::GetLifetime => 10,
            VirtioBlkReqType::Discard => 11,
            VirtioBlkReqType::WriteZeroes => 13,
            VirtioBlkReqType::SecureErase => 14,
        }
    }
}

/// The `n` little-endian bytes of `v`.
pub open spec fn le_bytes(v: int, n: nat) -> Seq<u8>
    decreases n,
{
    if n == 0 {
        Seq::empty()
    } else {
        seq![(v % 256) as u8] + le_bytes(v / 256, (n - 1) as nat)
    }
}

/// Appends the `n` little-endian bytes of `v` to `out`.
fn push_le(out: &mut Vec<u8>, v: u64, n: usize)
    requires
        n <= 8,
    ensures
        final(out)@ == old(out)@ + le_bytes(v as int, n as nat),
    decreases n,
{
    if n > 0 {
        out.push((v % 256) as u8);
        let ghost mid = out@;
        push_le(out, v / 256, n - 1);
        assert(final(out)@ == old(out)@ + le_bytes(v as int, n as nat)) by {
            assert(le_bytes(v as int, n as nat) == seq![(v % 256) as u8] + le_bytes((v / 256) as int, (n - 1) as nat));
        }
    } else {
        assert(old(out)@ + le_bytes(v as int, 0) == old(out)@);
    }
}

/// A block request header, followed on the wire by the data and the status byte.
#[derive(Debug, Clone, Copy, PartialEq, Eq, Structural)]
pub struct VirtioBlkReq {
    /// Request type.
    pub kind: VirtioBlkReqType,
    /// Reserved, zero.
    pub rsvd: u32,
    /// First sector of the request.
    pub sector: u64,
    /// Status byte written by the device.
    pub status: u8,
}

/// The header bytes of a request: type, reserved word and sector, little-endian.
pub open spec fn header_bytes_spec(kind: VirtioBlkReqType, sector: u64) -> Seq<u8> {
    le_bytes(req_code(kind) as int, 4) + le_bytes(0, 4) + le_bytes(sector as int, 8)
}

impl VirtioBlkReq {
    /// Size of the header read by the device.
    pub const HEADER_SIZE: usize = 16;
    /// Size of the status trailer written by the device.
    pub const TRAILER_SIZE: usize = 1;

    /// A request of type `kind` starting at `sector`, with a zero status.
    pub fn new(kind: VirtioBlkReqType, sector: u64) -> (r: Self)
        ensures
            r == (VirtioBlkReq { kind, rsvd: 0, sector, status: 0 }),
    {
        VirtioBlkReq { kind, rsvd: 0, sector, status: 0 }
    }

    /// The header as the device reads it.
    pub fn header_bytes(&self) -> (r: Vec<u8>)
        requires
            self.rsvd == 0,
        ensures
            r@ == header_bytes_spec(self.kind, self.sector),
            r@.len() == 16,
    {
        let mut out: Vec<u8> = Vec::new();
        push_le(&mut out, self.kind.code() as u64, 4);
        push_le(&mut out, self.rsvd as u64, 4);
        push_le(&mut out, self.sector, 8);
        proof {
            lemma_le_bytes_len(req_code(self.kind) as int, 4);
            lemma_le_bytes_len(0, 4);
            lemma_le_bytes_len(self.sector as int, 8);
        }
        out
    }
}

/// The header of a request starts with the little-endian type code that the virtio block
/// device expects: `IN` (read) is 0, `OUT` (write) is 1, `FLUSH` 4, `GET_ID` 8,
/// `GET_LIFETIME` 10, `DISCARD` 11, `WRITE_ZEROES` 13 and `SECURE_ERASE` 14; then four zero
/// bytes, then the sector in little-endian order.
pub proof fn lemma_header_layout(kind: VirtioBlkReqType, sector: u64)
    ensures
        ({
            let h = header_bytes_spec(kind, sector);
            &&& h.len() == 16
            &&& h[0] == match kind {
                VirtioBlkReqType::In => 0u8,
                VirtioBlkReqType::Out => 1u8,
                VirtioBlkReqType::Flush => 4u8,
                VirtioBlkReqType::GetId => 8u8,
                VirtioBlkReqType::GetLifetime => 10u8,
                VirtioBlkReqType::Discard => 11u8,
                VirtioBlkReqType::WriteZeroes => 13u8,
                VirtioBlkReqType::SecureErase => 14u8,
            }
            &&& forall|i: int| 1 <= i < 8 ==> h[i] == 0u8
            &&& forall|j: int| 8 <= j < 16 ==> h[j] == (sector as int / pow256(j - 8)) % 256
        }),
{
    let c = req_code(kind) as int;
    lemma_le_bytes_len(c, 4);
    lemma_le_bytes_len(0, 4);
    lemma_le_bytes_len(sector as int, 8);
    let h = header_bytes_spec(kind, sector);
    assert forall|i: int| 0 <= i < 4 implies h[i] == (c / pow256(i)) % 256 by {
        lemma_le_bytes_index(c, 4, i);
    }
    assert forall|j: int| 4 <= j < 8 implies h[j] == 0u8 by {
        lemma_le_bytes_index(0, 4, j - 4);
        lemma_pow256_pos(j - 4);
    }
    assert forall|j: int| 8 <= j < 16 implies h[j] == (sector as int / pow256(j - 8)) % 256 by {
        lemma_le_bytes_index(sector as int, 8, j - 8);
    }
    assert forall|i: int| 1 <= i < 4 implies h[i] == 0u8 by {
        lemma_pow256_pos(i);
        assert(pow256(i) >= 256) by {
            reveal_with_fuel(pow256, 4);
        }
        assert(c < 256);
        assert(c / pow256(i) == 0) by (nonlinear_arith)
            requires 0 <= c < 256, pow256(i) >= 256;
    }
    assert(pow256(0) == 1);
}

/// Distinct request types never share a header: in particular a write is never sent as a
/// read.
pub proof fn lemma_header_types_distinct(k1: VirtioBlkReqType, k2: VirtioBlkReqType, s1: u64, s2: u64)
    requires
        k1 != k2,
    ensures
        header_bytes_spec(k1, s1).subrange(0, 4) != header_bytes_spec(k2, s2).subrange(0, 4),
{
    lemma_header_layout(k1, s1);
    lemma_header_layout(k2, s2);
    assert(header_bytes_spec(k1, s1).subrange(0, 4)[0] != header_bytes_spec(k2, s2).subrange(0, 4)[0]);
}

/// Byte `i` of the `n` little-endian bytes of `v` is digit `i` of `v` in base 256.
proof fn lemma_le_bytes_index(v: int, n: nat, i: int)
    requires
        0 <= v,
        0 <= i < n,
    ensures
        le_bytes(v, n)[i] == (v / pow256(i)) % 256,
    decreases n,
{
    lemma_le_bytes_len(v / 256, (n - 1) as nat);
    assert(le_bytes(v, n) == seq![(v % 256) as u8] + le_bytes(v / 256, (n - 1) as nat));
    if i == 0 {
        assert(pow256(0) == 1);
    } else {
        lemma_le_bytes_index(v / 256, (n - 1) as nat, i - 1);
        lemma_pow256_pos(i - 1);
        vstd::arithmetic::div_mod::lemma_div_denominator(v, 256, pow256(i - 1));
        assert(pow256(i) == pow256(i - 1) * 256);
        assert(256 * pow256(i - 1) == pow256(i - 1) * 256) by (nonlinear_arith);
    }
}

/// Powers of 256 are positive.
proof fn lemma_pow256_pos(i: int)
    requires
        0 <= i,
    ensures
        pow256(i) >= 1,
    decreases i,
{
    if i > 0 {
        lemma_pow256_pos(i - 1);
    }
}

/// `le_bytes` yields `n` bytes.
proof fn lemma_le_bytes_len(v: int, n: nat)
    ensures
        le_bytes(v, n).len() == n,
    decreases n,
{
    if n > 0 {
        lemma_le_bytes_len(v / 256, (n - 1) as nat);
    }
}

/// The buffer chain of a request whose header lives at `req`: the header, then the data
/// buffer (written by the device for `In` and `GetId`, absent for `Flush`, read otherwise),
/// then the status byte right after the header.
pub open spec fn request_chain(kind: VirtioBlkReqType, req: DmaAddr, data: DmaAddr, len: usize) -> Seq<VirtqBuffer> {
    let header = VirtqBuffer::Readable { addr: req, len: 16 };
    let status = VirtqBuffer::Writeable { addr: DmaAddr::spec_new(req@ + 16), len: 1 };
    match kind {
        VirtioBlkReqType::In | VirtioBlkReqType::GetId => seq![header, VirtqBuffer::Writeable { addr: data, len }, status],
        VirtioBlkReqType::Flush => seq![header, status],
        _ => seq![header, VirtqBuffer::Readable { addr: data, len }, status],
    }
}

/// Builds the buffer chain of a request; see [`request_chain`].
pub fn request_buffers(kind: VirtioBlkReqType, req: DmaAddr, data: DmaAddr, len: usize) -> (r: Vec<VirtqBuffer>)
    requires
        req@ + 16 <= usize::MAX,
    ensures
        r@ == request_chain(kind, req, data, len),
{
    let mut bufs: Vec<VirtqBuffer> = Vec::new();
    bufs.push(VirtqBuffer::Readable { addr: req, len: VirtioBlkReq::HEADER_SIZE });
    match kind {
        VirtioBlkReqType::In | VirtioBlkReqType::GetId => {
            bufs.push(VirtqBuffer::Writeable { addr: data, len });
        },
        VirtioBlkReqType::Flush => {},
        _ => {
            bufs.push(VirtqBuffer::Readable { addr: data, len });
        },
    }
    let status = req + VirtioBlkReq::HEADER_SIZE;
    bufs.push(VirtqBuffer::Writeable { addr: status, len: VirtioBlkReq::TRAILER_SIZE });
    proof {
        DmaAddr::lemma_spec_new(status, (req@ + 16) as usize);
        assert(bufs@ == request_chain(kind, req, data, len));
    }
    bufs
}

/// Device feature bits of a block device.
#[derive(Debug, Clone, Copy, PartialEq, Eq, Structural)]
pub struct DeviceFeatures {
    bits: u32,
}

impl DeviceFeatures {
    /// Maximum size of any single segment is in `size_max`.
    pub const SIZE_MAX: u32 = 0x2;
    /// Maximum number of segments in a request is in `seg_max`.
    pub const SEG_MAX: u32 = 0x4;
    /// Disk-style geometry specified in `geometry`.
    pub const GEOMETRY: u32 = 0x10;
    /// Device is read-only.
    pub const RO: u32 = 0x20;
    /// Block size of disk is in `blk_size`.
    pub const BLK_SIZE: u32 = 0x40;
    /// Device exports information on optimal I/O alignment.
    pub const TOPOLOGY: u32 = 0x400;
    /// The features this driver accepts.
    pub const SUPPORTED: u32 = 0x456;

    /// The raw bits.
    pub closed spec fn view_bits(self) -> u32 {
        self.bits
    }

    /// Whether all bits of `flag` are set.
    pub fn contains(&self, flag: u32) -> (r: bool)
        ensures
            r == (self.view_bits() & flag == flag),
    {
        self.bits & flag == flag
    }

    /// The features both offered by the device (`offered`) and accepted by this driver.
    pub fn negotiate(offered: u32) -> (r: Self)
        ensures
            r.view_bits() == offered & DeviceFeatures::SUPPORTED,
    {
        DeviceFeatures { bits: offered & Self::SUPPORTED }
    }

    /// Returns the raw bits.
    pub fn bits(&self) -> (r: u32)
        ensures
            r == self.view_bits(),
    {
        self.bits
    }
}

/// Disk geometry.
#[derive(Debug, Clone, Copy, PartialEq, Eq, Structural)]
pub struct VirtioBlkGeometry {
    /// Number of cylinders.
    pub cylinders: u16,
    /// Number of heads.
    pub heads: u8,
    /// Sectors per track.
    pub sectors: u8,
}

/// I/O topology.
#[derive(Debug, Clone, Copy, PartialEq, Eq, Structural)]
pub struct VirtioBlkTopology {
    /// Exponent for physical block per logical block.
    pub physical_block_exp: u8,
    /// Alignment offset in logical blocks.
    pub alignment_offset: u8,
    /// Minimum I/O size without performance penalty in logical blocks.
    pub min_io_size: u16,
    /// Optimal sustained I/O size in logical blocks.
    pub opt_io_size: u32,
}

/// The device configuration, as far as the negotiated features expose it.
#[derive(Debug, Clone, Copy, PartialEq, Eq, Structural)]
pub struct VirtioBlkConfig {
    /// Capacity in 512-byte sectors.
    pub capacity: u64,
    /// Maximum segment size.
    pub size_max: u32,
    /// Maximum number of segments.
    pub seg_max: u32,
    /// Disk geometry.
    pub geometry: VirtioBlkGeometry,
    /// Block size.
    pub blk_size: u32,
    /// I/O topology.
    pub topology: VirtioBlkTopology,
}

impl VirtioBlkConfig {
    /// An all-zero configuration.
    pub fn zeroed() -> (r: Self)
        ensures
            r.capacity == 0 && r.size_max == 0 && r.seg_max == 0 && r.blk_size == 0,
            r.geometry == (VirtioBlkGeometry { cylinders: 0, heads: 0, sectors: 0 }),
            r.topology == (VirtioBlkTopology { physical_block_exp: 0, alignment_offset: 0, min_io_size: 0, opt_io_size: 0 }),
    {
        VirtioBlkConfig {
            capacity: 0,
            size_max: 0,
            seg_max: 0,
            geometry: VirtioBlkGeometry { cylinders: 0, heads: 0, sectors: 0 },
            blk_size: 0,
            topology: VirtioBlkTopology { physical_block_exp: 0, alignment_offset: 0, min_io_size: 0, opt_io_size: 0 },
        }
    }
}

/// A virtio block device.
pub struct VirtioBlkDev<D> {
    dev: D,
    virtq: Virtq,
    config: VirtioBlkConfig,
    features: DeviceFeatures,
}

impl<D: VirtioDev> VirtioBlkDev<D> {
    /// The device is consistent: its request queue is well formed.
    pub closed spec fn wf(&self) -> bool {
        self.virtq.wf()
    }

    /// The negotiated features.
    pub closed spec fn features_spec(&self) -> DeviceFeatures {
        self.features
    }

    /// The configuration read from the device.
    pub closed spec fn config_spec(&self) -> VirtioBlkConfig {
        self.config
    }

    /// The underlying device.
    pub closed spec fn device_spec(&self) -> D {
        self.dev
    }

    /// The request virtqueue.
    pub closed spec fn virtq_spec(&self) -> Virtq {
        self.virtq
    }

    /// Configures a virtio device as block device: acknowledges it, negotiates the features
    /// this driver supports, sets up request queue 0, reads the configuration the features
    /// expose, and marks the driver ready.
    pub fn new(dev: D) -> (r: Self)
        ensures
            r.wf(),
            r.features_spec().view_bits() & !DeviceFeatures::SUPPORTED == 0,
            r.features_spec().view_bits() & DeviceFeatures::SIZE_MAX == 0 ==> r.config_spec().size_max == 0,
            r.features_spec().view_bits() & DeviceFeatures::SEG_MAX == 0 ==> r.config_spec().seg_max == 0,
            r.features_spec().view_bits() & DeviceFeatures::BLK_SIZE == 0 ==> r.config_spec().blk_size == 0,
            !has_feature(r.features_spec(), DeviceFeatures::GEOMETRY) ==> r.config_spec().geometry == (
            VirtioBlkGeometry { cylinders: 0, heads: 0, sectors: 0 }),
            !has_feature(r.features_spec(), DeviceFeatures::TOPOLOGY) ==> r.config_spec().topology == (
            VirtioBlkTopology { physical_block_exp: 0, alignment_offset: 0, min_io_size: 0, opt_io_size: 0 }),
            r.device_spec() == dev,
            call_ensures(D::update_status, (&dev, Status::ACKNOWLEDGE), ()),
            call_ensures(D::update_status, (&dev, Status::DRIVER), ()),
            call_ensures(D::enable_device_features, (&dev, 0u32, r.features_spec().view_bits()), ()),
            call_ensures(D::allocate_virtq, (&dev, 0u32), r.virtq_spec()),
            call_ensures(D::update_status, (&dev, Status::DRIVER_OK), ()),
            exists|offered: u32|
                #[trigger] call_ensures(D::read_device_features, (&dev, 0u32), offered)
                    && r.features_spec().view_bits() == offered & DeviceFeatures::SUPPORTED,
            call_ensures(D::read_config_u64, (&dev, 0u32), r.config_spec().capacity),
            has_feature(r.features_spec(), DeviceFeatures::SIZE_MAX) ==> call_ensures(
                D::read_config_u32,
                (&dev, 8u32),
                r.config_spec().size_max,
            ),
            has_feature(r.features_spec(), DeviceFeatures::SEG_MAX) ==> call_ensures(
                D::read_config_u32,
                (&dev, 12u32),
                r.config_spec().seg_max,
            ),
            has_feature(r.features_spec(), DeviceFeatures::GEOMETRY) ==> {
                &&& call_ensures(D::read_config_u16, (&dev, 16u32), r.config_spec().geometry.cylinders)
                &&& call_ensures(D::read_config_u8, (&dev, 18u32), r.config_spec().geometry.heads)
                &&& call_ensures(D::read_config_u8, (&dev, 19u32), r.config_spec().geometry.sectors)
            },
            has_feature(r.features_spec(), DeviceFeatures::BLK_SIZE) ==> call_ensures(
                D::read_config_u32,
                (&dev, 20u32),
                r.config_spec().blk_size,
            ),
            has_feature(r.features_spec(), DeviceFeatures::TOPOLOGY) ==> {
                &&& call_ensures(D::read_config_u8, (&dev, 24u32), r.config_spec().topology.physical_block_exp)
                &&& call_ensures(D::read_config_u8, (&dev, 25u32), r.config_spec().topology.alignment_offset)
                &&& call_ensures(D::read_config_u16, (&dev, 26u32), r.config_spec().topology.min_io_size)
                &&& call_ensures(D::read_config_u32, (&dev, 28u32), r.config_spec().topology.opt_io_size)
            },
    {
        // Recognize the device
        dev.update_status(Status::ACKNOWLEDGE);
        dev.update_status(Status::DRIVER);

        // Read and acknowledge device features
        let offered = dev.read_device_features(0);
        let features = DeviceFeatures::negotiate(offered);
        dev.enable_device_features(0, features.bits());

        // Configure virtqueues
        let virtq = dev.allocate_virtq(0);

        let mut slf = VirtioBlkDev { dev, virtq, features, config: VirtioBlkConfig::zeroed() };

        // Read configuration
        slf.read_config();

        // Device is now live
        slf.dev.update_status(Status::DRIVER_OK);
        proof {
            let b = features.view_bits();
            assert(b & !0x456u32 == 0u32) by (bit_vector)
                requires b == offered & 0x456u32;
        }
        slf
    }

    /// Reads the configuration fields that the negotiated features expose.
    fn read_config(&mut self)
        ensures
            final(self).dev == old(self).dev,
            final(self).virtq == old(self).virtq,
            final(self).features == old(self).features,
            !has_feature(old(self).features, DeviceFeatures::SIZE_MAX) ==> final(self).config.size_max == old(self).config.size_max,
            !has_feature(old(self).features, DeviceFeatures::SEG_MAX) ==> final(self).config.seg_max == old(self).config.seg_max,
            !has_feature(old(self).features, DeviceFeatures::GEOMETRY) ==> final(self).config.geometry == old(self).config.geometry,
            !has_feature(old(self).features, DeviceFeatures::BLK_SIZE) ==> final(self).config.blk_size == old(self).config.blk_size,
            !has_feature(old(self).features, DeviceFeatures::TOPOLOGY) ==> final(self).config.topology == old(self).config.topology,
            call_ensures(D::read_config_u64, (&old(self).dev, 0u32), final(self).config.capacity),
            has_feature(old(self).features, DeviceFeatures::SIZE_MAX) ==> call_ensures(
                D::read_config_u32,
                (&old(self).dev, 8u32),
                final(self).config.size_max,
            ),
            has_feature(old(self).features, DeviceFeatures::SEG_MAX) ==> call_ensures(
                D::read_config_u32,
                (&old(self).dev, 12u32),
                final(self).config.seg_max,
            ),
            has_feature(old(self).features, DeviceFeatures::GEOMETRY) ==> {
                &&& call_ensures(D::read_config_u16, (&old(self).dev, 16u32), final(self).config.geometry.cylinders)
                &&& call_ensures(D::read_config_u8, (&old(self).dev, 18u32), final(self).config.geometry.heads)
                &&& call_ensures(D::read_config_u8, (&old(self).dev, 19u32), final(self).config.geometry.sectors)
            },
            has_feature(old(self).features, DeviceFeatures::BLK_SIZE) ==> call_ensures(
                D::read_config_u32,
                (&old(self).dev, 20u32),
                final(self).config.blk_size,
            ),
            has_feature(old(self).features, DeviceFeatures::TOPOLOGY) ==> {
                &&& call_ensures(D::read_config_u8, (&old(self).dev, 24u32), final(self).config.topology.physical_block_exp)
                &&& call_ensures(D::read_config_u8, (&old(self).dev, 25u32), final(self).config.topology.alignment_offset)
                &&& call_ensures(D::read_config_u16, (&old(self).dev, 26u32), final(self).config.topology.min_io_size)
                &&& call_ensures(D::read_config_u32, (&old(self).dev, 28u32), final(self).config.topology.opt_io_size)
            },
    {
        self.config.capacity = self.dev.read_config_u64(0);

        if self.features.contains(DeviceFeatures::SIZE_MAX) {
            self.config.size_max = self.dev.read_config_u32(8);
        }
        if self.features.contains(DeviceFeatures::SEG_MAX) {
            self.config.seg_max = self.dev.read_config_u32(12);
        }
        if self.features.contains(DeviceFeatures::GEOMETRY) {
            self.config.geometry = VirtioBlkGeometry {
                cylinders: self.dev.read_config_u16(16),
                heads: self.dev.read_config_u8(18),
                sectors: self.dev.read_config_u8(19),
            };
        }
        if self.features.contains(DeviceFeatures::BLK_SIZE) {
            self.config.blk_size = self.dev.read_config_u32(20);
        }
        if self.features.contains(DeviceFeatures::TOPOLOGY) {
            self.config.topology = VirtioBlkTopology {
                physical_block_exp: self.dev.read_config_u8(24),
                alignment_offset: self.dev.read_config_u8(25),
                min_io_size: self.dev.read_config_u16(26),
                opt_io_size: self.dev.read_config_u32(28),
            };
        }
    }

    /// The configuration read from the device.
    pub fn config(&self) -> (r: VirtioBlkConfig)
        ensures
            r == self.config_spec(),
    {
        self.config
    }

    /// The negotiated features.
    pub fn features(&self) -> (r: DeviceFeatures)
        ensures
            r == self.features_spec(),
    {
        self.features
    }

    /// The number of free descriptors of the request queue.
    pub fn free_descriptors(&self) -> (r: usize)
        requires
            self.wf(),
        ensures
            r == self.virtq_spec().free_list().len(),
    {
        self.virtq.free_count()
    }

    /// The underlying device.
    pub fn device(&self) -> (r: &D)
        ensures
            *r == self.device_spec(),
    {
        &self.dev
    }

    /// Submits a request of type `kind` on `sector` whose header lives at `req` (its status
    /// byte right after the header) and whose data buffer is `len` bytes at `data`; the
    /// device is notified. The caller waits for the device to use the buffers.
    pub fn transfer(&mut self, kind: VirtioBlkReqType, req: DmaAddr, data: DmaAddr, len: usize)
        requires
            old(self).wf(),
            req@ + 16 <= usize::MAX,
            request_chain(kind, req, data, len).len() <= old(self).virtq_spec().free_list().len(),
        ensures
            final(self).wf(),
            final(self).virtq_spec().in_flight() == old(self).virtq_spec().in_flight().insert(
                old(self).virtq_spec().free_list()[0],
                old(self).virtq_spec().free_list().subrange(0, request_chain(kind, req, data, len).len() as int),
            ),
            final(self).virtq_spec().free_list() == old(self).virtq_spec().free_list().subrange(
                request_chain(kind, req, data, len).len() as int,
                old(self).virtq_spec().free_list().len() as int,
            ),
            final(self).config_spec() == old(self).config_spec(),
            final(self).features_spec() == old(self).features_spec(),
            final(self).device_spec() == old(self).device_spec(),
            ({
                let bufs = request_chain(kind, req, data, len);
                let n = bufs.len() as int;
                let q0 = old(self).virtq_spec();
                let q1 = final(self).virtq_spec();
                let chain = q0.free_list().subrange(0, n);
                &&& forall|j: int| 0 <= j < n ==> q1.descriptors_spec()[#[trigger] chain[j]] == desc_for(
                    bufs[j],
                    j == n - 1,
                    q0.descriptors_spec()[chain[j]].next,
                )
                &&& forall|i: int| 0 <= i < q0.size_spec() && !chain.contains(i)
                    ==> #[trigger] q1.descriptors_spec()[i] == q0.descriptors_spec()[i]
                &&& q1.avail_ring_spec() == q0.avail_ring_spec().update(q0.avail_spec().idx as int, chain[0] as u16)
                &&& q1.avail_spec().idx == (q0.avail_spec().idx + 1) % q0.size_spec()
                &&& call_ensures(D::notify, (&old(self).device_spec(), q0.index_spec()), ())
            }),
    {
        let bufs = request_buffers(kind, req, data, len);
        self.virtq.submit(&self.dev, bufs.as_slice());
    }
}

/// Whether `features` has all bits of `flag`.
pub open spec fn has_feature(features: DeviceFeatures, flag: u32) -> bool {
    features.view_bits() & flag == flag
}

impl<D> VirtioDriver for VirtioBlkDev<D> {}

/// Size of the buffer a `GetId` request fills.
pub const DEVICE_ID_LEN: usize = 20;

/// The device ID string held by the buffer a `GetId` request filled: the bytes before the
/// first NUL, or `None` if there is no NUL or the string is empty.
pub fn parse_device_id(buf: &[u8]) -> (r: Option<&[u8]>)
    ensures
        match r {
            Some(id) => exists|n: int| 0 < n < buf@.len() && buf@[n] == 0 && (forall|k: int| 0 <= k < n ==> buf@[k] != 0) && id@ == buf@.subrange(0, n),
            None => (forall|k: int| 0 <= k < buf@.len() ==> buf@[k] != 0) || (buf@.len() > 0 && buf@[0] == 0),
        },
{
    let mut i: usize = 0;
    while i < buf.len()
        invariant
            i <= buf@.len(),
            forall|k: int| 0 <= k < i ==> buf@[k] != 0,
        decreases buf@.len() - i,
    {
        if buf[i] == 0 {
            if i == 0 {
                return None;
            }
            return Some(vstd::slice::slice_subrange(buf, 0, i));
        }
        i += 1;
    }
    None
}

} // verus!
