use vstd::prelude::*;

verus! {

/// Input clock of the programmable interval timer, in Hz.
pub const PIT_FREQUENCY: u32 = 1193180;

/// Command byte: channel 0, low then high byte, mode 0, binary counting.
pub const PIT_RELOAD_COMMAND: u8 = 0x30;

/// The reload value that makes the PIT fire `hz` times a second, kept to its
/// low 16 bits.
pub fn hz_to_pit_value(hz: u32) -> (r: u16)
    requires
        hz > 0,
    ensures
        r == (PIT_FREQUENCY / hz) as u16,
{
    (PIT_FREQUENCY / hz) as u16
}

/// The bytes that reload channel 0 with `value`: the command, then the low
/// and the high byte of the value.
pub fn reload_bytes(value: u16) -> (r: (u8, u8, u8))
    ensures
        r.0 == PIT_RELOAD_COMMAND,
        r.1 + 256 * r.2 == value,
{
    let lo = (value & 0xff) as u8;
    let hi = ((value >> 8) & 0xff) as u8;
    assert((value & 0xff) + 256 * ((value >> 8) & 0xff) == value && value & 0xff <= 0xff && (value >> 8)
        & 0xff <= 0xff) by (bit_vector);
    (PIT_RELOAD_COMMAND, lo, hi)
}

/// Why a sleep could not be prepared.
#[derive(Debug, Clone, Copy, PartialEq, Eq, Structural)]
pub enum SleepError {
    AlreadySleeping,
}

/// A countdown of PIT ticks (one per millisecond while sleeping).
#[derive(Debug, Clone, Copy, PartialEq, Eq, Structural)]
pub struct SleepTimer {
    pub sleep_count: u64,
    pub sleeping: bool,
}

impl SleepTimer {
    pub fn new() -> (r: SleepTimer)
        ensures
            r == (SleepTimer { sleep_count: 0, sleeping: false }),
    {
        SleepTimer { sleep_count: 0, sleeping: false }
    }

    /// One PIT tick: counts down while a sleep is under way.
    pub fn update_sleep(&mut self)
        ensures
            final(self).sleeping == old(self).sleeping,
            final(self).sleep_count == if old(self).sleeping && old(self).sleep_count != 0 {
                (old(self).sleep_count - 1) as u64
            } else {
                old(self).sleep_count
            },
    {
        if self.sleeping && self.sleep_count != 0 {
            self.sleep_count = self.sleep_count - 1;
        }
    }

    /// Arms a sleep of `ms` ticks; refused while a sleep is under way.
    pub fn prepare_sleep(&mut self, ms: u64) -> (r: Result<(), SleepError>)
        ensures
            old(self).sleeping ==> r == Err::<(), SleepError>(SleepError::AlreadySleeping) && *final(self)
                == *old(self),
            !old(self).sleeping ==> r is Ok && *final(self) == (SleepTimer {
                sleep_count: ms,
                sleeping: false,
            }),
    {
        if self.sleeping {
            return Err(SleepError::AlreadySleeping);
        }
        self.sleep_count = ms;
        Ok(())
    }

    /// Starts counting down the armed sleep.
    pub fn begin_sleep(&mut self)
        ensures
            *final(self) == (SleepTimer { sleep_count: old(self).sleep_count, sleeping: true }),
    {
        self.sleeping = true;
    }

    /// The armed sleep has run out.
    pub fn is_done(&self) -> (r: bool)
        ensures
            r == (self.sleep_count == 0),
    {
        self.sleep_count == 0
    }

    /// Stops counting.
    pub fn end_sleep(&mut self)
        ensures
            *final(self) == (SleepTimer { sleep_count: old(self).sleep_count, sleeping: false }),
    {
        self.sleeping = false;
    }
}

} // verus!
