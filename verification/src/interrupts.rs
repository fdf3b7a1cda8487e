//! Interrupt numbers of the chained 8259 PICs and the hand-off of scan
//! codes from the keyboard interrupt to the main loop.

use vstd::prelude::*;

verus! {

/// First interrupt vector of the primary PIC.
pub const PIC_1_OFFSET: u8 = 32;

/// First interrupt vector of the secondary PIC.
pub const PIC_2_OFFSET: u8 = PIC_1_OFFSET + 8;

/// Vector of the timer interrupt (IRQ 0).
pub const TIMER_INTERRUPT_ID: u8 = PIC_1_OFFSET;

/// Vector of the keyboard interrupt (IRQ 1).
pub const KEYBOARD_INTERRUPT_ID: u8 = PIC_1_OFFSET + 1;

/// Interrupt mask of the primary PIC: IRQ 0 and IRQ 1 enabled.
pub const PIC_1_MASK: u8 = 0b1111_1100;

/// Interrupt mask of the secondary PIC: everything masked.
pub const PIC_2_MASK: u8 = 0xFF;

/// The scan code left by the keyboard interrupt, if any: the interrupt
/// stores each scan code in a shared byte that the main loop swaps with 0,
/// so 0 means that nothing arrived.
pub fn keyboard_scancode(latched: u8) -> (scancode: Option<u8>)
    ensures
        scancode == (if latched == 0 {
            None
        } else {
            Some(latched)
        }),
{
    if latched == 0 {
        None
    } else {
        Some(latched)
    }
}

} // verus!
