//! Device drivers: the parts of them that decide and compute.
pub mod fw_cfg;
pub mod ns16550;
pub mod of_match;
pub mod plic;
pub mod syscon;
pub mod ramfb;
pub mod virtio;
