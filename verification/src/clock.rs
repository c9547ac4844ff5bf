//! The clock: turns the host's monotonic microsecond timestamps into a
//! per-tick delta (in fixed-point seconds, capped at one second) and keeps
//! a smoothed frame-rate estimate.

use vstd::prelude::*;
use crate::fixed::FX_ONE;
use crate::fixed::div_floor;
use crate::fixed::fx_div;
use crate::fixed::fx_div_spec;
use vstd::arithmetic::div_mod::lemma_div_is_ordered;

verus! {

/// The tick delta in fixed-point seconds: zero when time has not advanced,
/// otherwise the elapsed microseconds, capped at one second.
pub open spec fn delta_fx_spec(last: int, now: int) -> int {
    if now <= last {
        0
    } else if now - last >= 1000000 {
        FX_ONE as int
    } else {
        ((now - last) * (FX_ONE as int)) / 1000000
    }
}

/// The exponential moving average of the frame rate:
/// `avg' = (avg * 29 + 1/delta) / 30`.
pub open spec fn ema_spec(avg: int, delta: int) -> int {
    (avg * 29 + fx_div_spec(FX_ONE as int, delta)) / 30
}

/// Monotonic time bookkeeping.
#[derive(Clone, Copy, PartialEq, Eq, Structural, Debug)]
pub struct Clock {
    pub last_micros: u64,
    pub avg_fps: i64,
}

impl Clock {
    /// The smoothed estimate stays a nonnegative fixed-point rate no larger
    /// than one tick per microsecond-grain.
    pub open spec fn valid(self) -> bool {
        0 <= self.avg_fps <= 0x1_0000_0000
    }

    /// A clock whose first tick will measure from `start_micros`.
    pub fn start(start_micros: u64) -> (c: Clock)
        ensures
            c.valid(),
            c.last_micros == start_micros,
            c.avg_fps == 0,
    {
        Clock { last_micros: start_micros, avg_fps: 0 }
    }

    /// Advance to `now_micros` and hand back the tick delta; when time has
    /// advanced, fold `1/delta` into the smoothed frame rate.
    pub fn tick(&mut self, now_micros: u64) -> (delta: i64)
        requires
            old(self).valid(),
        ensures
            final(self).valid(),
            final(self).last_micros == now_micros,
            delta == delta_fx_spec(old(self).last_micros as int, now_micros as int),
            0 <= delta <= FX_ONE,
            delta > 0 ==> final(self).avg_fps == ema_spec(old(self).avg_fps as int, delta as int),
            delta == 0 ==> final(self).avg_fps == old(self).avg_fps,
    {
        let d_us: u64 = if now_micros > self.last_micros {
            now_micros - self.last_micros
        } else {
            0
        };
        let delta: i64 = if d_us >= 1000000 {
            FX_ONE
        } else {
            proof {
                lemma_div_is_ordered(
                    (d_us as int) * (FX_ONE as int),
                    1000000 * (FX_ONE as int),
                    1000000,
                );
                vstd::arithmetic::div_mod::lemma_div_by_multiple(FX_ONE as int, 1000000);
            }
            ((d_us * 65536) / 1000000) as i64
        };
        self.last_micros = now_micros;
        if delta > 0 {
            let fps: i64 = fx_div(FX_ONE, delta);
            proof {
                lemma_div_is_ordered(
                    0,
                    (self.avg_fps as int) * 29 + fps,
                    30,
                );
                lemma_div_is_ordered(
                    (self.avg_fps as int) * 29 + fps,
                    30int * 0x1_0000_0000int,
                    30,
                );
                vstd::arithmetic::div_mod::lemma_div_multiples_vanish(0x1_0000_0000, 30);
            }
            self.avg_fps = div_floor(self.avg_fps * 29 + fps, 30);
        }
        delta
    }
}

} // verus!
