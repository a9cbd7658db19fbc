//! Monotonic time arithmetic over a 16-bit hardware counter.
//!
//! The hardware exposes a free-running 16-bit counter and an update flag
//! that is raised on each counter overflow.  This module keeps the running
//! count of overflowed ticks and combines it with a freshly read counter
//! value and flag — handed in as plain values — into a 32-bit monotonic
//! instant, and computes the compare value for the next scheduled wakeup.

use vstd::prelude::*;

verus! {

/// Ticks spanned by one full 16-bit counter period.
pub const COUNTER_PERIOD: u32 = 0x10000;

/// Monotonic timer state for a 16-bit hardware timer ticking at `FREQ` Hz.
pub struct MonoTimer<const FREQ: u32> {
    ovf: u32,
}

/// The 32-bit instant read from accumulated overflow ticks `ovf`, counter
/// value `cnt`, and a still-pending overflow flag.
pub open spec fn now_ticks(ovf: u32, cnt: u16, overflow_pending: bool) -> u32 {
    (((cnt as int) + (if overflow_pending {
        COUNTER_PERIOD as int
    } else {
        0int
    }) + (ovf as int)) % 0x1_0000_0000) as u32
}

/// The 16-bit compare value to schedule a wakeup at `instant`: the
/// instant's low counter bits when it lies within one counter period of
/// now, else the farthest reachable point (an instant already past is left
/// for the scheduler to handle on wakeup).
pub open spec fn compare_ticks(ovf: u32, cnt: u16, overflow_pending: bool, instant: u32) -> u16 {
    let now = now_ticks(ovf, cnt, overflow_pending);
    if instant < now {
        (((cnt as int) + 0xffff) % 0x10000) as u16
    } else if instant - now <= 0xffff {
        (instant % 0x10000) as u16
    } else {
        (((cnt as int) + 0xffff) % 0x10000) as u16
    }
}

impl<const FREQ: u32> MonoTimer<FREQ> {
    /// The accumulated overflow ticks.
    pub closed spec fn view(&self) -> u32 {
        self.ovf
    }

    /// Starts the timer model, also returning the hardware prescaler value
    /// that divides the timer input clock `pclk_tim_hz` down to `FREQ`.
    pub fn new(pclk_tim_hz: u32) -> (r: (MonoTimer<FREQ>, u16))
        requires
            FREQ > 0,
            pclk_tim_hz / FREQ >= 1,
            pclk_tim_hz / FREQ - 1 <= u16::MAX,
        ensures
            r.0@ == 0,
            r.1 == pclk_tim_hz / FREQ - 1,
    {
        let psc: u16 = (pclk_tim_hz / FREQ - 1) as u16;
        (MonoTimer { ovf: 0 }, psc)
    }

    /// The current 32-bit instant.  When the overflow flag is still raised,
    /// the overflow interrupt has not run yet and one counter period is
    /// added here to compensate.
    pub fn now(&self, cnt: u16, overflow_pending: bool) -> (t: u32)
        ensures
            t == now_ticks(self@, cnt, overflow_pending),
    {
        let base: u32 = if overflow_pending {
            cnt as u32 + COUNTER_PERIOD
        } else {
            cnt as u32
        };
        base.wrapping_add(self.ovf)
    }

    /// The compare value to write for a wakeup at `instant`.
    pub fn set_compare(&self, instant: u32, cnt: u16, overflow_pending: bool) -> (v: u16)
        ensures
            v == compare_ticks(self@, cnt, overflow_pending, instant),
    {
        let now = self.now(cnt, overflow_pending);

        // The counter may or may not overflow before the requested instant;
        // schedule within the current period only when the instant is
        // reachable there, otherwise run as long as possible.
        if instant < now {
            cnt.wrapping_add(0xffff)
        } else if instant - now <= 0xffff {
            (instant % COUNTER_PERIOD) as u16
        } else {
            cnt.wrapping_add(0xffff)
        }
    }

    /// Accounts for one counter overflow: called from the overflow
    /// interrupt with the update flag, which is only acted on when raised.
    pub fn on_interrupt(&mut self, overflow_pending: bool)
        ensures
            final(self)@ == if overflow_pending {
                ((old(self)@ + COUNTER_PERIOD) % 0x1_0000_0000) as u32
            } else {
                old(self)@
            },
    {
        if overflow_pending {
            self.ovf = self.ovf.wrapping_add(COUNTER_PERIOD);
        }
    }

    /// The instant at which the timer starts.
    pub fn zero() -> (t: u32)
        ensures
            t == 0,
    {
        0
    }
}

} // verus!
