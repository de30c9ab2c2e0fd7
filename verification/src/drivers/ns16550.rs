//! Register interface of the 16550 UART: the register offsets, and what the line status
//! register says about the receive and transmit paths.
use vstd::prelude::*;

verus! {

/// Receive buffer (read) / transmit holding register (write).
pub const RTHR: usize = 0;

/// Interrupt enable register.
pub const IER: usize = 1;

/// Line status register.
pub const LSR: usize = 5;

/// Line status bit: a received byte is waiting in the receive buffer.
pub const LSR_DATA_READY: u8 = 0x01;

/// Line status bit: the transmit holding register is empty.
pub const LSR_THR_EMPTY: u8 = 0x20;

/// Interrupt enable value that enables only the "received data available" interrupt.
pub const IER_RX_AVAILABLE: u8 = 1;

/// Whether the line status `lsr` reports a received byte.
pub fn data_ready(lsr: u8) -> (r: bool)
    ensures
        r == (lsr & LSR_DATA_READY != 0),
{
    lsr & LSR_DATA_READY != 0
}

/// Whether the line status `lsr` allows writing the next byte to the transmit register.
pub fn can_transmit(lsr: u8) -> (r: bool)
    ensures
        r == (lsr & LSR_THR_EMPTY != 0),
{
    lsr & LSR_THR_EMPTY != 0
}

/// The interrupt enable register value for data-ready interrupts on or off.
pub fn interrupt_enable_value(enabled: bool) -> (r: u8)
    ensures
        enabled ==> r == IER_RX_AVAILABLE,
        !enabled ==> r == 0,
{
    if enabled {
        IER_RX_AVAILABLE
    } else {
        0
    }
}

} // verus!
