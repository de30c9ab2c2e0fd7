//! VirtIO memory-mapped transport (legacy interface): the register layout and the checks
//! that decide whether a probed device is driven.
use vstd::prelude::*;

verus! {

/// Magic value register; reads `virt` (little-endian).
pub const MAGIC: usize = 0x00;
/// Device version register.
pub const VERSION: usize = 0x04;
/// Device ID register.
pub const DEVICE_ID: usize = 0x08;
/// Vendor ID register.
pub const VENDOR_ID: usize = 0x0c;
/// Device features register.
pub const DEVICE_FEATURES: usize = 0x10;
/// Device features word selector.
pub const DEVICE_FEATURES_SEL: usize = 0x14;
/// Driver features register.
pub const DRIVER_FEATURES: usize = 0x20;
/// Driver features word selector.
pub const DRIVER_FEATURES_SEL: usize = 0x24;
/// Guest page size register.
pub const GUEST_PAGE_SIZE: usize = 0x28;
/// Virtqueue selector.
pub const QUEUE_SEL: usize = 0x30;
/// Maximum size of the selected virtqueue.
pub const QUEUE_NUM_MAX: usize = 0x34;
/// Size of the selected virtqueue.
pub const QUEUE_NUM: usize = 0x38;
/// Alignment of the used ring of the selected virtqueue.
pub const QUEUE_ALIGN: usize = 0x3c;
/// Guest page number of the selected virtqueue.
pub const QUEUE_PFN: usize = 0x40;
/// Queue notifier.
pub const QUEUE_NOTIFY: usize = 0x50;
/// Interrupt status register.
pub const INTERRUPT_STATUS: usize = 0x60;
/// Interrupt acknowledge register.
pub const INTERRUPT_ACK: usize = 0x64;
/// Device status register.
pub const STATUS: usize = 0x70;
/// Start of the device-specific configuration space.
pub const CONFIG: usize = 0x100;

/// The magic value, `virt` read as a little-endian 32-bit word.
pub const MAGIC_VALUE: u32 = 0x7472_6976;

/// Device ID of a block device.
pub const DEVICE_ID_BLOCK: u32 = 2;

/// What a probed virtio-mmio device is.
#[derive(Debug, Clone, Copy, PartialEq, Eq, Structural)]
pub enum MmioDeviceKind {
    /// A block device.
    Block,
    /// A device of another type, which has no driver.
    Unsupported(u32),
}

/// Why a probed virtio-mmio device is not driven.
#[derive(Debug, Clone, Copy, PartialEq, Eq, Structural)]
pub enum MmioProbeError {
    /// The magic register does not read `virt`.
    InvalidMagic,
    /// The device does not implement the legacy interface (version 1).
    InvalidVersion,
    /// The slot holds a placeholder device (device ID 0).
    DeviceNotFound,
}

impl MmioProbeError {
    /// A human-readable description of the error.
    pub fn message(&self) -> (r: &'static str)
        ensures
            *self == MmioProbeError::InvalidMagic ==> r@ == "invalid virtio-mmio magic"@,
            *self == MmioProbeError::InvalidVersion ==> r@ == "invalid virtio-mmio version"@,
            *self == MmioProbeError::DeviceNotFound ==> r@ == "device not found"@,
    {
        match self {
            MmioProbeError::InvalidMagic => "invalid virtio-mmio magic",
            MmioProbeError::InvalidVersion => "invalid virtio-mmio version",
            MmioProbeError::DeviceNotFound => "device not found",
        }
    }
}

/// Decides, from its magic, version and device ID registers, whether and how a
/// virtio-mmio device is driven.
pub fn probe(magic: u32, version: u32, device_id: u32) -> (r: Result<MmioDeviceKind, MmioProbeError>)
    ensures
        magic != MAGIC_VALUE ==> r == Err::<MmioDeviceKind, MmioProbeError>(MmioProbeError::InvalidMagic),
        magic == MAGIC_VALUE && version != 1 ==> r == Err::<MmioDeviceKind, MmioProbeError>(MmioProbeError::InvalidVersion),
        magic == MAGIC_VALUE && version == 1 && device_id == 0 ==> r == Err::<MmioDeviceKind, MmioProbeError>(MmioProbeError::DeviceNotFound),
        magic == MAGIC_VALUE && version == 1 && device_id == DEVICE_ID_BLOCK ==> r == Ok::<MmioDeviceKind, MmioProbeError>(MmioDeviceKind::Block),
        magic == MAGIC_VALUE && version == 1 && device_id != 0 && device_id != DEVICE_ID_BLOCK ==> r == Ok::<MmioDeviceKind, MmioProbeError>(MmioDeviceKind::Unsupported(device_id)),
{
    if magic != MAGIC_VALUE {
        return Err(MmioProbeError::InvalidMagic);
    }
    if version != 1 {
        return Err(MmioProbeError::InvalidVersion);
    }
    if device_id == 0 {
        return Err(MmioProbeError::DeviceNotFound);
    }
    if device_id == DEVICE_ID_BLOCK {
        Ok(MmioDeviceKind::Block)
    } else {
        Ok(MmioDeviceKind::Unsupported(device_id))
    }
}

} // verus!
