//! Generic system controller: the register writes that power the machine off or reboot it,
//! as the device tree's `syscon-poweroff` and `syscon-reboot` nodes describe them.
use vstd::prelude::*;
use crate::mm::mmio::IoMapping;

verus! {

/// A register write that triggers a system controller action.
#[derive(Debug, Clone, Copy, PartialEq, Eq, Structural)]
pub struct SysconRegister {
    /// Offset of the register within the controller's register map.
    pub offset: usize,
    /// Value to write.
    pub value: u32,
    /// Mask of the bits that matter (all bits when the node gives none).
    pub mask: u32,
}

impl SysconRegister {
    /// Builds the register description from a node's `offset`, `value` and `mask`
    /// properties; both `offset` and `value` are required.
    pub fn from_properties(offset: Option<u32>, value: Option<u32>, mask: Option<u32>) -> (r: Option<SysconRegister>)
        ensures
            match (offset, value) {
                (Some(o), Some(v)) => r == Some(SysconRegister {
                    offset: o as usize,
                    value: v,
                    mask: match mask {
                        Some(m) => m,
                        None => u32::MAX,
                    },
                }),
                _ => r is None,
            },
    {
        let offset = match offset {
            Some(o) => o as usize,
            None => {
                return None;
            },
        };
        let value = match value {
            Some(v) => v,
            None => {
                return None;
            },
        };
        let mask = match mask {
            Some(m) => m,
            None => u32::MAX,
        };
        Some(SysconRegister { offset, value, mask })
    }
}

/// Whether a `syscon-poweroff` or `syscon-reboot` node whose `regmap` property is
/// `node_regmap` belongs to the controller with phandle `phandle`.
pub fn refers_to(node_regmap: Option<u32>, phandle: u32) -> (r: bool)
    ensures
        r == (node_regmap == Some(phandle)),
{
    match node_regmap {
        Some(p) => p == phandle,
        None => false,
    }
}

/// Generic system controller.
pub struct GenericSyscon {
    regmap: IoMapping,
    poweroff: Option<SysconRegister>,
    reboot: Option<SysconRegister>,
}

impl GenericSyscon {
    /// The register written to power off, if known.
    pub closed spec fn poweroff_spec(&self) -> Option<SysconRegister> {
        self.poweroff
    }

    /// The register written to reboot, if known.
    pub closed spec fn reboot_spec(&self) -> Option<SysconRegister> {
        self.reboot
    }

    /// The controller's register map.
    pub closed spec fn regmap_spec(&self) -> IoMapping {
        self.regmap
    }

    /// A controller over `regmap` with the given poweroff and reboot registers.
    pub fn new(regmap: IoMapping, poweroff: Option<SysconRegister>, reboot: Option<SysconRegister>) -> (r: Self)
        ensures
            r.regmap_spec() == regmap,
            r.poweroff_spec() == poweroff,
            r.reboot_spec() == reboot,
    {
        GenericSyscon { regmap, poweroff, reboot }
    }

    /// The controller's register map.
    pub fn regmap(&self) -> (r: &IoMapping)
        ensures
            *r == self.regmap_spec(),
    {
        &self.regmap
    }

    /// The 32-bit write (offset, value) that powers the system off; `None` when the device
    /// tree described none, in which case powering off does nothing.
    pub fn poweroff_write(&self) -> (r: Option<(usize, u32)>)
        ensures
            match self.poweroff_spec() {
                Some(reg) => r == Some((reg.offset, reg.value)),
                None => r is None,
            },
    {
        match self.poweroff {
            Some(reg) => Some((reg.offset, reg.value)),
            None => None,
        }
    }

    /// The 32-bit write (offset, value) that reboots the system; `None` when the device
    /// tree described none, in which case rebooting does nothing.
    pub fn reboot_write(&self) -> (r: Option<(usize, u32)>)
        ensures
            match self.reboot_spec() {
                Some(reg) => r == Some((reg.offset, reg.value)),
                None => r is None,
            },
    {
        match self.reboot {
            Some(reg) => Some((reg.offset, reg.value)),
            None => None,
        }
    }
}

} // verus!
