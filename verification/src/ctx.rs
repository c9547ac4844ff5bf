//! Per-tick shared state: the viewport, the compile-time configuration
//! surface, the click intensity, and the frame context handed read-only to
//! the camera, the pools and the rasterizer.

use vstd::prelude::*;
use crate::fixed::FX_ONE;
use crate::fixed::fx_lerp;
use crate::fixed::fx_lerp_spec;
use crate::fixed::fx_min;
use crate::fixed::fx_mul;
use crate::fixed::fx_mul_spec;
use crate::geom::Vec2;
use crate::geom::isqrt_spec;
use crate::geom::isqrt64;

verus! {

/// Decay rate of the click intensity: `5.0`, so each tick moves the
/// intensity toward zero by the fraction `min(5 * delta, 1)`.
pub const CLICK_RATE: i64 = 327680;

/// The drawable window, in whole pixels.
#[derive(Clone, Copy, PartialEq, Eq, Structural, Debug)]
pub struct Viewport {
    pub w: u32,
    pub h: u32,
}

impl Viewport {
    /// Both dimensions are positive and small enough for every derived
    /// fixed-point quantity to fit.
    pub open spec fn valid(self) -> bool {
        &&& 1 <= self.w <= 16384
        &&& 1 <= self.h <= 16384
    }

    /// The width in fixed point.
    pub open spec fn w_fx_spec(self) -> int {
        self.w * (FX_ONE as int)
    }

    /// The height in fixed point.
    pub open spec fn h_fx_spec(self) -> int {
        self.h * (FX_ONE as int)
    }

    /// The reference size for normalisation and radii: the smaller
    /// dimension, in fixed point.
    pub open spec fn vsize_spec(self) -> int {
        if self.w <= self.h {
            self.w_fx_spec()
        } else {
            self.h_fx_spec()
        }
    }

    /// The viewport centre in fixed point.
    pub open spec fn center_spec(self) -> Vec2 {
        Vec2 { x: (self.w_fx_spec() / 2) as i64, y: (self.h_fx_spec() / 2) as i64 }
    }

    /// The length of the viewport diagonal in fixed point.
    pub open spec fn diag_spec(self) -> int {
        isqrt_spec(self.w_fx_spec() * self.w_fx_spec() + self.h_fx_spec() * self.h_fx_spec())
    }

    /// Construct a viewport.
    pub fn new(w: u32, h: u32) -> (r: Viewport)
        ensures
            r.w == w,
            r.h == h,
    {
        Viewport { w, h }
    }

    /// The width in fixed point.
    pub fn w_fx(&self) -> (r: i64)
        requires
            self.valid(),
        ensures
            r == self.w_fx_spec(),
            FX_ONE <= r <= 0x4000_0000,
    {
        (self.w as i64) * FX_ONE
    }

    /// The height in fixed point.
    pub fn h_fx(&self) -> (r: i64)
        requires
            self.valid(),
        ensures
            r == self.h_fx_spec(),
            FX_ONE <= r <= 0x4000_0000,
    {
        (self.h as i64) * FX_ONE
    }

    /// The smaller dimension in fixed point.
    pub fn vsize(&self) -> (r: i64)
        requires
            self.valid(),
        ensures
            r == self.vsize_spec(),
            FX_ONE <= r <= 0x4000_0000,
    {
        if self.w <= self.h {
            self.w_fx()
        } else {
            self.h_fx()
        }
    }

    /// The viewport centre.
    pub fn center(&self) -> (r: Vec2)
        requires
            self.valid(),
        ensures
            r == self.center_spec(),
            r.in_range(),
            0 <= r.x,
            0 <= r.y,
    {
        Vec2 { x: self.w_fx() / 2, y: self.h_fx() / 2 }
    }

    /// The diagonal length in fixed point.
    pub fn diag_fx(&self) -> (r: i64)
        requires
            self.valid(),
        ensures
            r == self.diag_spec(),
            FX_ONE <= r <= 0x1_0000_0000,
    {
        let wf: i64 = self.w_fx();
        let hf: i64 = self.h_fx();
        proof {
            assert(0x1_0000_0000 <= (wf as int) * (wf as int) <= 0x1000_0000_0000_0000)
                by (nonlinear_arith)
                requires
                    65536 <= wf as int <= 0x4000_0000,
            ;
            assert(0x1_0000_0000 <= (hf as int) * (hf as int) <= 0x1000_0000_0000_0000)
                by (nonlinear_arith)
                requires
                    65536 <= hf as int <= 0x4000_0000,
            ;
        }
        let n: u64 = ((wf * wf) as u64) + ((hf * hf) as u64);
        let r: u64 = isqrt64(n);
        proof {
            assert(r as int >= 65536) by (nonlinear_arith)
                requires
                    (n as int) < (r as int + 1) * (r as int + 1),
                    n as int >= 0x2_0000_0000,
                    r as int >= 0,
            ;
        }
        r as i64
    }
}

/// The configuration surface: population sizes and the per-pool decay and
/// speed constants, all fixed at startup.
#[derive(Clone, Copy, PartialEq, Eq, Structural, Debug)]
pub struct Config {
    pub particle_count: usize,
    pub dust_count: usize,
    pub particle_decay: i64,
    pub dust_decay: i64,
    pub particle_speed: i64,
    pub dust_speed: i64,
}

impl Config {
    /// The constants stay in the ranges the update arithmetic needs.
    pub open spec fn valid(self) -> bool {
        &&& self.particle_count <= 100000
        &&& self.dust_count <= 100000
        &&& 0 <= self.particle_decay <= FX_ONE
        &&& 0 <= self.dust_decay <= FX_ONE
        &&& 0 <= self.particle_speed <= 0x10_0000
        &&& 0 <= self.dust_speed <= 0x10_0000
    }

    /// The reference configuration: 512 elements per pool, decay rate
    /// `0.125` for both, speed `15.0` for particles and `5.0` for dust.
    pub open spec fn default_spec() -> Config {
        Config {
            particle_count: 512,
            dust_count: 512,
            particle_decay: 8192,
            dust_decay: 8192,
            particle_speed: 983040,
            dust_speed: 327680,
        }
    }
}

impl Default for Config {
    /// The reference configuration.
    fn default() -> (r: Config)
        ensures
            r == Config::default_spec(),
            r.valid(),
    {
        Config {
            particle_count: 512,
            dust_count: 512,
            particle_decay: 8192,
            dust_decay: 8192,
            particle_speed: 983040,
            dust_speed: 327680,
        }
    }
}

/// The read-only snapshot of tick-wide state: built once per tick, before
/// the pools fan out, and never written during the fan-out.
#[derive(Clone, Copy, PartialEq, Eq, Structural, Debug)]
pub struct FrameCtx {
    pub delta: i64,
    pub click: i64,
    pub cursor: Vec2,
    pub character: Vec2,
    pub offset: Vec2,
    pub vp: Viewport,
}

impl FrameCtx {
    /// All members are in the ranges the update arithmetic needs.
    pub open spec fn valid(self) -> bool {
        &&& 0 <= self.delta <= FX_ONE
        &&& 0 <= self.click <= FX_ONE
        &&& self.cursor.in_range()
        &&& self.character.in_range()
        &&& self.offset.in_range()
        &&& self.vp.valid()
    }
}

/// The next click intensity: exactly `1.0` on a press edge, otherwise the
/// current intensity moved toward zero by the fraction `min(5 * delta, 1)`.
pub open spec fn click_step_spec(click: int, pressed: bool, delta: int) -> int {
    if pressed {
        FX_ONE as int
    } else {
        let t = if fx_mul_spec(CLICK_RATE as int, delta) >= FX_ONE as int {
            FX_ONE as int
        } else {
            fx_mul_spec(CLICK_RATE as int, delta)
        };
        fx_lerp_spec(click, 0, t)
    }
}

/// Advance the click intensity by one tick.
///
/// A press edge resets it to exactly `1.0` (also when several presses land
/// in the same tick); otherwise it decays and never increases.
pub fn click_step(click: i64, pressed: bool, delta: i64) -> (r: i64)
    requires
        0 <= click <= FX_ONE,
        0 <= delta <= FX_ONE,
    ensures
        r == click_step_spec(click as int, pressed, delta as int),
        0 <= r <= FX_ONE,
        pressed ==> r == FX_ONE,
        !pressed ==> r <= click,
{
    if pressed {
        FX_ONE
    } else {
        let t: i64 = fx_min(fx_mul(CLICK_RATE, delta), FX_ONE);
        fx_lerp(click, 0, t)
    }
}

} // verus!
