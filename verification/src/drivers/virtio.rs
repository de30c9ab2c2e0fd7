//! VirtIO devices: virtqueues and the block device driver.
use vstd::prelude::*;
use crate::drivers::virtio::virtq::Virtq;

pub mod virtq;
pub mod blkdev;
pub mod mmio;

verus! {

/// VirtIO status register bits.
#[derive(Debug, Clone, Copy, PartialEq, Eq, Structural)]
pub struct Status {
    bits: u32,
}

impl Status {
    /// The guest OS has found the device and recognized it as a valid virtio device.
    pub const ACKNOWLEDGE: u32 = 1;
    /// The guest OS knows how to drive the device.
    pub const DRIVER: u32 = 2;
    /// The driver is set up and ready to drive the device.
    pub const DRIVER_OK: u32 = 4;
    /// The device has experienced an error from which it can't recover.
    pub const DEVICE_NEEDS_RESET: u32 = 64;
    /// Something went wrong in the guest, and it has given up on the device.
    pub const FAILED: u32 = 128;

    /// The raw bits.
    pub closed spec fn view_bits(self) -> u32 {
        self.bits
    }

    /// Builds a status from raw bits, keeping all of them.
    pub fn from_bits_retain(bits: u32) -> (r: Self)
        ensures
            r.view_bits() == bits,
    {
        Status { bits }
    }

    /// Returns the raw bits.
    pub fn bits(&self) -> (r: u32)
        ensures
            r == self.view_bits(),
    {
        self.bits
    }

    /// Whether all bits of `flag` are set.
    pub fn contains(&self, flag: u32) -> (r: bool)
        ensures
            r == (self.view_bits() & flag == flag),
    {
        self.bits & flag == flag
    }
}

/// VirtIO interrupt status register bits.
#[derive(Debug, Clone, Copy, PartialEq, Eq, Structural)]
pub struct InterruptStatus {
    bits: u32,
}

impl InterruptStatus {
    /// The device has used a buffer in at least one of the active virtual queues.
    pub const USED_BUFFER: u32 = 1;
    /// The configuration of the device has changed.
    pub const CONFIG_CHANGED: u32 = 2;

    /// The raw bits.
    pub closed spec fn view_bits(self) -> u32 {
        self.bits
    }

    /// Builds an interrupt status from raw bits, keeping all of them.
    pub fn from_bits_retain(bits: u32) -> (r: Self)
        ensures
            r.view_bits() == bits,
    {
        InterruptStatus { bits }
    }

    /// Returns the raw bits.
    pub fn bits(&self) -> (r: u32)
        ensures
            r == self.view_bits(),
    {
        self.bits
    }

    /// Whether all bits of `flag` are set.
    pub fn contains(&self, flag: u32) -> (r: bool)
        ensures
            r == (self.view_bits() & flag == flag),
    {
        self.bits & flag == flag
    }
}

/// Abstraction over VirtIO devices with PCI and MMIO interfaces.
pub trait VirtioDev {
    /// Reads the device's status register.
    fn status(&self) -> Status;

    /// Adds the specified bits to the device's status register.
    fn update_status(&self, status: u32);

    /// Reads 32 consecutive feature bits the device supports, starting at bit `32 * offset`.
    fn read_device_features(&self, offset: u32) -> u32;

    /// Writes 32 consecutive feature bits understood and activated by the driver, starting at
    /// bit `32 * offset`.
    fn enable_device_features(&self, offset: u32, value: u32);

    /// Reads a configuration field from the device; the offset is expressed in bytes.
    fn read_config_u8(&self, offset: u32) -> u8;

    /// Reads a 16-bit configuration field from the device.
    fn read_config_u16(&self, offset: u32) -> u16;

    /// Reads a 32-bit configuration field from the device.
    fn read_config_u32(&self, offset: u32) -> u32;

    /// Reads a 64-bit configuration field from the device.
    fn read_config_u64(&self, offset: u32) -> u64;

    /// Allocates and configures the specified virtqueue.
    fn allocate_virtq(&self, index: u32) -> (r: Virtq)
        ensures
            r.wf(),
    ;

    /// Makes the driver-owned parts of `vq` (its descriptor table and available ring)
    /// visible to the device.
    fn sync_queue(&self, vq: &Virtq);

    /// Notifies the device that new buffers are available in the selected virtqueue.
    fn notify(&self, index: u32);

    /// Reads the interrupt status register.
    fn interrupts(&self) -> InterruptStatus;

    /// Notifies the device that the events causing the interrupt have been handled.
    fn clear_interrupts(&self, status: InterruptStatus);
}

/// Driver for a specific VirtIO peripheral.
pub trait VirtioDriver {}

} // verus!
