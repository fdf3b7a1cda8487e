//! The programmable interval timer (PIT, channel 0) and tick counting.

use vstd::prelude::*;

verus! {

/// Timer interrupts per second.
pub const TIMER_FREQUENCY: u64 = 100;

/// Divisor of the PIT's 1.193182 MHz input clock.
pub const PIT_DIVISOR: u16 = 11_932;

/// PIT command: channel 0, low byte then high byte, rate generator.
pub const PIT_RATE_GENERATOR: u8 = 0x34;

/// PIT command: latch the current count of channel 0.
pub const PIT_LATCH_COUNT: u8 = 0x00;

/// I/O port of the PIT's command register.
pub const PIT_COMMAND_PORT: u16 = 0x43;

/// I/O port of the PIT's channel 0.
pub const PIT_CHANNEL0_PORT: u16 = 0x40;

/// A divisor as the two bytes the PIT expects, low byte first.
pub fn divisor_bytes(divisor: u16) -> (bytes: (u8, u8))
    ensures
        bytes.0 == divisor % 256,
        bytes.1 == divisor / 256,
{
    assert(divisor & 0xFF == divisor % 256) by (bit_vector);
    assert(divisor >> 8 == divisor / 256) by (bit_vector);
    ((divisor & 0xFF) as u8, (divisor >> 8) as u8)
}

/// The count read from the PIT as a low and a high byte.
pub fn count_from_bytes(low: u8, high: u8) -> (count: u16)
    ensures
        count == low + 256 * high,
{
    assert((low as u16) | ((high as u16) << 8) == low + 256 * high) by (bit_vector);
    u16::from(low) | (u16::from(high) << 8)
}

/// Counts PIT periods by watching channel 0's count wrap around.
pub struct PitTimer {
    last_count: u16,
    ticks: u64,
}

impl PitTimer {
    pub closed spec fn last_count(&self) -> u16 {
        self.last_count
    }

    pub closed spec fn tick_count(&self) -> u64 {
        self.ticks
    }

    /// No count seen yet, no tick counted.
    pub fn new() -> (timer: Self)
        ensures
            timer.last_count() == 0,
            timer.tick_count() == 0,
    {
        PitTimer { last_count: 0, ticks: 0 }
    }

    /// Takes a count just read from the PIT: the counter counts down, so a
    /// count above the previous one (when there was one) means it reloaded,
    /// and one more tick has passed.
    pub fn observe_count(&mut self, current_count: u16)
        requires
            old(self).last_count() != 0 && current_count > old(self).last_count() ==> old(self).tick_count()
                < u64::MAX,
        ensures
            final(self).last_count() == current_count,
            final(self).tick_count() == old(self).tick_count() + if old(self).last_count() != 0
                && current_count > old(self).last_count() {
                1int
            } else {
                0int
            },
    {
        if self.last_count != 0 && current_count > self.last_count {
            self.ticks = self.ticks + 1;
        }
        self.last_count = current_count;
    }

    pub fn ticks(&self) -> (ticks: u64)
        ensures
            ticks == self.tick_count(),
    {
        self.ticks
    }

    /// Whole seconds counted, at `TIMER_FREQUENCY` ticks per second.
    pub fn seconds(&self) -> (seconds: u64)
        ensures
            seconds == self.tick_count() / TIMER_FREQUENCY,
    {
        self.ticks / 100
    }
}

} // verus!
