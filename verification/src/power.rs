//! Rebooting through the 8042 keyboard controller.

use vstd::prelude::*;

verus! {

/// I/O port of the 8042 controller's status and command registers.
pub const CONTROLLER_COMMAND_PORT: u16 = 0x64;

/// I/O port of the 8042 controller's data register.
pub const CONTROLLER_DATA_PORT: u16 = 0x60;

/// 8042 command that pulses the CPU reset line.
pub const RESET_COMMAND: u8 = 0xFE;

/// Whether the controller can take a command: bit 1 of its status (input
/// buffer full) is clear.
pub fn controller_ready(status: u8) -> (ready: bool)
    ensures
        ready == ((status / 2) % 2 == 0),
{
    assert(status & 0x02 == 0 <==> (status / 2) % 2 == 0) by (bit_vector);
    status & 0x02 == 0
}

} // verus!
