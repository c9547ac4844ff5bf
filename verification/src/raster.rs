//! The software rasterizer: an off-screen pixel surface, filled and stroked
//! circles with a bounding test, and the per-pixel channel permutation that
//! prepares a frame for presentation.

use vstd::prelude::*;
use crate::fixed::FX_ONE;
use crate::fixed::fx_mul;
use crate::fixed::lemma_fx_mul_bound;
use vstd::arithmetic::div_mod::lemma_fundamental_div_mod;
use vstd::arithmetic::div_mod::lemma_fundamental_div_mod_converse;
use vstd::arithmetic::div_mod::lemma_mod_bound;

verus! {

/// A pixel lies strictly inside the disc of radius `rad` around
/// `(cx, cy)`; a non-positive radius is a degenerate path and covers
/// nothing.
pub open spec fn in_disc(cx: int, cy: int, rad: int, x: int, y: int) -> bool {
    &&& rad > 0
    &&& (x - cx) * (x - cx) + (y - cy) * (y - cy) < rad * rad
}

/// A pixel lies on the one-pixel-wide ring of radius `rad` around
/// `(cx, cy)`.
pub open spec fn in_ring(cx: int, cy: int, rad: int, x: int, y: int) -> bool {
    &&& rad > 0
    &&& (rad - 1) * (rad - 1) <= (x - cx) * (x - cx) + (y - cy) * (y - cy)
    &&& (x - cx) * (x - cx) + (y - cy) * (y - cy) < rad * rad
}

/// A buffer with the strict interior of one circle painted over it.
pub open spec fn disc_painted(s: Seq<u32>, w: int, cx: int, cy: int, rad: int, color: u32) -> Seq<
    u32,
> {
    Seq::new(
        s.len(),
        |j: int|
            if in_disc(cx, cy, rad, j % w, j / w) {
                color
            } else {
                s[j]
            },
    )
}

/// A buffer with the one-pixel ring of one circle painted over it.
pub open spec fn ring_painted(s: Seq<u32>, w: int, cx: int, cy: int, rad: int, color: u32) -> Seq<
    u32,
> {
    Seq::new(
        s.len(),
        |j: int|
            if in_ring(cx, cy, rad, j % w, j / w) {
                color
            } else {
                s[j]
            },
    )
}

/// The bounds test of the rasterizer: on each axis, the distance of the
/// centre from the viewport midpoint is less than midpoint plus radius
/// (written doubled, so no halves are lost).
pub open spec fn fits_spec(w: int, h: int, cx: int, cy: int, rad: int) -> bool {
    &&& (if w - 2 * cx < 0 {
        2 * cx - w
    } else {
        w - 2 * cx
    }) < w + 2 * rad
    &&& (if h - 2 * cy < 0 {
        2 * cy - h
    } else {
        h - 2 * cy
    }) < h + 2 * rad
}

/// Decide the bounds test for a circle in pixel coordinates.
pub fn circle_fits(w: usize, h: usize, cx: i64, cy: i64, rad: i64) -> (r: bool)
    requires
        w <= 16384,
        h <= 16384,
        -0x10_0000 <= cx <= 0x10_0000,
        -0x10_0000 <= cy <= 0x10_0000,
        -0x10_0000 <= rad <= 0x10_0000,
    ensures
        r == fits_spec(w as int, h as int, cx as int, cy as int, rad as int),
{
    let wi: i64 = w as i64;
    let hi: i64 = h as i64;
    let ax: i64 = if wi - 2 * cx < 0 {
        2 * cx - wi
    } else {
        wi - 2 * cx
    };
    let ay: i64 = if hi - 2 * cy < 0 {
        2 * cy - hi
    } else {
        hi - 2 * cy
    };
    ax < wi + 2 * rad && ay < hi + 2 * rad
}

/// The bounds test passes exactly when the circle's span strictly overlaps
/// the viewport rectangle on both axes.
pub proof fn lemma_fits_overlap(w: int, h: int, cx: int, cy: int, rad: int)
    ensures
        fits_spec(w, h, cx, cy, rad) <==> (cx + rad > 0 && cx - rad < w && cy + rad > 0 && cy - rad
            < h),
{
}

/// A circle that fails the bounds test covers no pixel of the viewport.
pub proof fn lemma_unfit_covers_nothing(w: int, h: int, cx: int, cy: int, rad: int, x: int, y: int)
    requires
        !fits_spec(w, h, cx, cy, rad),
        0 <= x < w,
        0 <= y < h,
    ensures
        !in_disc(cx, cy, rad, x, y),
        !in_ring(cx, cy, rad, x, y),
{
    lemma_fits_overlap(w, h, cx, cy, rad);
    if rad > 0 {
        if cx + rad <= 0 {
            assert((x - cx) * (x - cx) >= rad * rad) by (nonlinear_arith)
                requires
                    x - cx >= rad > 0,
            ;
            assert(0 <= (y - cy) * (y - cy)) by (nonlinear_arith);
        } else if cx - rad >= w {
            assert((x - cx) * (x - cx) >= rad * rad) by (nonlinear_arith)
                requires
                    cx - x >= rad > 0,
            ;
            assert(0 <= (y - cy) * (y - cy)) by (nonlinear_arith);
        } else if cy + rad <= 0 {
            assert((y - cy) * (y - cy) >= rad * rad) by (nonlinear_arith)
                requires
                    y - cy >= rad > 0,
            ;
            assert(0 <= (x - cx) * (x - cx)) by (nonlinear_arith);
        } else {
            assert(cy - rad >= h);
            assert((y - cy) * (y - cy) >= rad * rad) by (nonlinear_arith)
                requires
                    cy - y >= rad > 0,
            ;
            assert(0 <= (x - cx) * (x - cx)) by (nonlinear_arith);
        }
    }
}

/// Row-major coordinates of a linear pixel index.
proof fn lemma_grid(w: int, x: int, y: int)
    requires
        1 <= w,
        0 <= x < w,
        0 <= y,
    ensures
        (y * w + x) / w == y,
        (y * w + x) % w == x,
{
    lemma_fundamental_div_mod_converse(y * w + x, w, y, x);
}

/// A pixel's row-major index lies inside the buffer.
proof fn lemma_grid_bounds(w: int, h: int, x: int, y: int)
    requires
        0 <= x < w,
        0 <= y < h,
    ensures
        0 <= y * w + x,
        y * w + x < w * h,
{
    assert(0 <= y * w + x && y * w + x < w * h) by (nonlinear_arith)
        requires
            0 <= x < w,
            0 <= y < h,
    ;
}

/// Every linear index names a pixel of the grid.
proof fn lemma_grid_inv(w: int, h: int, j: int)
    requires
        1 <= w,
        1 <= h,
        0 <= j < w * h,
    ensures
        0 <= j % w < w,
        0 <= j / w < h,
        j == w * (j / w) + j % w,
{
    lemma_fundamental_div_mod(j, w);
    lemma_mod_bound(j, w);
    vstd::arithmetic::div_mod::lemma_div_pos_is_pos(j, w);
    assert(j / w < h) by (nonlinear_arith)
        requires
            j == w * (j / w) + j % w,
            0 <= j % w < w,
            j < w * h,
            0 <= j / w,
            1 <= w,
    ;
}

/// The off-screen pixel surface: a row-major buffer sized to the viewport.
#[derive(Clone, PartialEq, Eq, Debug)]
pub struct Surface {
    pub w: usize,
    pub h: usize,
    pub px: Vec<u32>,
}

impl Surface {
    /// Dimensions are positive, at most 16384, and the buffer holds exactly
    /// one word per pixel.
    pub open spec fn valid(self) -> bool {
        &&& 1 <= self.w <= 16384
        &&& 1 <= self.h <= 16384
        &&& self.px.len() == self.w * self.h
    }

    /// Allocate a surface cleared to `background`.
    pub fn new(w: usize, h: usize, background: u32) -> (s: Surface)
        requires
            1 <= w <= 16384,
            1 <= h <= 16384,
        ensures
            s.valid(),
            s.w == w,
            s.h == h,
            forall|j: int| 0 <= j < s.px.len() ==> s.px[j] == background,
    {
        proof {
            assert((w as int) * (h as int) <= 0x1000_0000) by (nonlinear_arith)
                requires
                    1 <= w as int <= 16384,
                    1 <= h as int <= 16384,
            ;
            assert(1 <= (w as int) * (h as int)) by (nonlinear_arith)
                requires
                    1 <= w as int,
                    1 <= h as int,
            ;
        }
        let n: usize = w * h;
        let mut px: Vec<u32> = Vec::new();
        let mut i: usize = 0;
        while i < n
            invariant
                i <= n,
                px.len() == i,
                forall|j: int| 0 <= j < px.len() ==> px[j] == background,
            decreases n - i,
        {
            px.push(background);
            i += 1;
        }
        Surface { w, h, px }
    }

    /// Repaint every pixel with `background`.
    pub fn clear(&mut self, background: u32)
        requires
            old(self).valid(),
        ensures
            final(self).valid(),
            final(self).w == old(self).w,
            final(self).h == old(self).h,
            forall|j: int| 0 <= j < final(self).px.len() ==> final(self).px[j] == background,
            final(self).px@ == Seq::new(old(self).px@.len(), |j: int| background),
    {
        let n: usize = self.px.len();
        let mut i: usize = 0;
        while i < n
            invariant
                self.valid(),
                self.w == old(self).w,
                self.h == old(self).h,
                n == self.px.len(),
                i <= n,
                forall|j: int| 0 <= j < i ==> self.px[j] == background,
            decreases n - i,
        {
            self.px.set(i, background);
            i += 1;
        }
        proof {
            assert(self.px@ =~= Seq::new(old(self).px@.len(), |j: int| background));
        }
    }

    /// Replace the surface by one sized to a new viewport; a zero-area or
    /// oversized request is ignored, as resizes to such viewports are.
    pub fn resize(&mut self, w: usize, h: usize, background: u32)
        requires
            old(self).valid(),
        ensures
            final(self).valid(),
            (1 <= w <= 16384 && 1 <= h <= 16384) ==> final(self).w == w && final(self).h == h,
            !(1 <= w <= 16384 && 1 <= h <= 16384) ==> *final(self) == *old(self),
    {
        if 1 <= w && w <= 16384 && 1 <= h && h <= 16384 {
            *self = Surface::new(w, h, background);
        }
    }

    /// Paint the strict interior of a circle, skipping it entirely when its
    /// bounding box lies outside the viewport or its radius is degenerate
    /// (both no-ops by this very contract, not errors).
    pub fn fill_circle(&mut self, cx: i64, cy: i64, rad: i64, color: u32)
        requires
            old(self).valid(),
            -0x10_0000 <= cx <= 0x10_0000,
            -0x10_0000 <= cy <= 0x10_0000,
            -0x10_0000 <= rad <= 0x10_0000,
        ensures
            final(self).valid(),
            final(self).w == old(self).w,
            final(self).h == old(self).h,
            final(self).px.len() == old(self).px.len(),
            forall|j: int|
                0 <= j < final(self).px.len() ==> final(self).px[j] == (if in_disc(
                    cx as int,
                    cy as int,
                    rad as int,
                    j % (old(self).w as int),
                    j / (old(self).w as int),
                ) {
                    color
                } else {
                    old(self).px[j]
                }),
            final(self).px@ == disc_painted(
                old(self).px@,
                old(self).w as int,
                cx as int,
                cy as int,
                rad as int,
                color,
            ),
    {
        let w: usize = self.w;
        let h: usize = self.h;
        if rad <= 0 {
            proof {
                assert(self.px@ =~= disc_painted(
                    self.px@,
                    w as int,
                    cx as int,
                    cy as int,
                    rad as int,
                    color,
                ));
            }
            return ;
        }
        if !circle_fits(w, h, cx, cy, rad) {
            proof {
                assert forall|j: int| 0 <= j < self.px.len() implies #[trigger] self.px[j] == (
                if in_disc(
                    cx as int,
                    cy as int,
                    rad as int,
                    j % (w as int),
                    j / (w as int),
                ) {
                    color
                } else {
                    old(self).px[j]
                }) by {
                    lemma_grid_inv(w as int, h as int, j);
                    lemma_unfit_covers_nothing(
                        w as int,
                        h as int,
                        cx as int,
                        cy as int,
                        rad as int,
                        j % (w as int),
                        j / (w as int),
                    );
                }
                assert(self.px@ =~= disc_painted(
                    self.px@,
                    w as int,
                    cx as int,
                    cy as int,
                    rad as int,
                    color,
                ));
            }
            return ;
        }
        let n: usize = self.px.len();
        let mut y: usize = 0;
        while y < h
            invariant
                self.valid(),
                self.w == w,
                self.h == h,
                w == old(self).w,
                h == old(self).h,
                n == self.px.len(),
                n == old(self).px.len(),
                y <= h,
                rad > 0,
                -0x10_0000 <= cx <= 0x10_0000,
                -0x10_0000 <= cy <= 0x10_0000,
                rad <= 0x10_0000,
                forall|j: int|
                    0 <= j < y * w ==> self.px[j] == (if in_disc(
                        cx as int,
                        cy as int,
                        rad as int,
                        j % (w as int),
                        j / (w as int),
                    ) {
                        color
                    } else {
                        old(self).px[j]
                    }),
                forall|j: int| y * w <= j < n ==> self.px[j] == old(self).px[j],
            decreases h - y,
        {
            let mut x: usize = 0;
            while x < w
                invariant
                    self.valid(),
                    self.w == w,
                    self.h == h,
                    w == old(self).w,
                    h == old(self).h,
                    n == self.px.len(),
                    n == old(self).px.len(),
                    y < h,
                    x <= w,
                    rad > 0,
                    -0x10_0000 <= cx <= 0x10_0000,
                    -0x10_0000 <= cy <= 0x10_0000,
                    rad <= 0x10_0000,
                    forall|j: int|
                        0 <= j < y * w + x ==> self.px[j] == (if in_disc(
                            cx as int,
                            cy as int,
                            rad as int,
                            j % (w as int),
                            j / (w as int),
                        ) {
                            color
                        } else {
                            old(self).px[j]
                        }),
                    forall|j: int| y * w + x <= j < n ==> self.px[j] == old(self).px[j],
                decreases w - x,
            {
                proof {
                    lemma_grid_bounds(w as int, h as int, x as int, y as int);
                    lemma_grid(w as int, x as int, y as int);
                }
                let idx: usize = y * w + x;
                let dx: i64 = (x as i64) - cx;
                let dy: i64 = (y as i64) - cy;
                proof {
                    assert(0 <= (dx as int) * (dx as int) <= 0x1_0000_0000_0000) by (nonlinear_arith)
                        requires
                            -0x20_0000 <= dx as int <= 0x20_0000,
                    ;
                    assert(0 <= (dy as int) * (dy as int) <= 0x1_0000_0000_0000) by (nonlinear_arith)
                        requires
                            -0x20_0000 <= dy as int <= 0x20_0000,
                    ;
                    assert(0 <= (rad as int) * (rad as int) <= 0x1_0000_0000_0000)
                        by (nonlinear_arith)
                        requires
                            -0x20_0000 <= rad as int <= 0x20_0000,
                    ;
                }
                if dx * dx + dy * dy < rad * rad {
                    self.px.set(idx, color);
                }
                x += 1;
            }
            proof {
                assert((y as int + 1) * (w as int) == (y as int) * (w as int) + (w as int))
                    by (nonlinear_arith);
            }
            y += 1;
        }
        proof {
            assert(h * w == w * h) by (nonlinear_arith);
            assert(self.px@ =~= disc_painted(
                old(self).px@,
                w as int,
                cx as int,
                cy as int,
                rad as int,
                color,
            ));
        }
    }

    /// Paint the one-pixel-wide ring of a circle, with the same skip rules
    /// as `fill_circle`.
    pub fn stroke_circle(&mut self, cx: i64, cy: i64, rad: i64, color: u32)
        requires
            old(self).valid(),
            -0x10_0000 <= cx <= 0x10_0000,
            -0x10_0000 <= cy <= 0x10_0000,
            -0x10_0000 <= rad <= 0x10_0000,
        ensures
            final(self).valid(),
            final(self).w == old(self).w,
            final(self).h == old(self).h,
            final(self).px.len() == old(self).px.len(),
            forall|j: int|
                0 <= j < final(self).px.len() ==> final(self).px[j] == (if in_ring(
                    cx as int,
                    cy as int,
                    rad as int,
                    j % (old(self).w as int),
                    j / (old(self).w as int),
                ) {
                    color
                } else {
                    old(self).px[j]
                }),
            final(self).px@ == ring_painted(
                old(self).px@,
                old(self).w as int,
                cx as int,
                cy as int,
                rad as int,
                color,
            ),
    {
        let w: usize = self.w;
        let h: usize = self.h;
        if rad <= 0 {
            proof {
                assert(self.px@ =~= ring_painted(
                    self.px@,
                    w as int,
                    cx as int,
                    cy as int,
                    rad as int,
                    color,
                ));
            }
            return ;
        }
        if !circle_fits(w, h, cx, cy, rad) {
            proof {
                assert forall|j: int| 0 <= j < self.px.len() implies #[trigger] self.px[j] == (
                if in_ring(
                    cx as int,
                    cy as int,
                    rad as int,
                    j % (w as int),
                    j / (w as int),
                ) {
                    color
                } else {
                    old(self).px[j]
                }) by {
                    lemma_grid_inv(w as int, h as int, j);
                    lemma_unfit_covers_nothing(
                        w as int,
                        h as int,
                        cx as int,
                        cy as int,
                        rad as int,
                        j % (w as int),
                        j / (w as int),
                    );
                }
                assert(self.px@ =~= ring_painted(
                    self.px@,
                    w as int,
                    cx as int,
                    cy as int,
                    rad as int,
                    color,
                ));
            }
            return ;
        }
        let n: usize = self.px.len();
        let mut y: usize = 0;
        while y < h
            invariant
                self.valid(),
                self.w == w,
                self.h == h,
                w == old(self).w,
                h == old(self).h,
                n == self.px.len(),
                n == old(self).px.len(),
                y <= h,
                rad > 0,
                -0x10_0000 <= cx <= 0x10_0000,
                -0x10_0000 <= cy <= 0x10_0000,
                rad <= 0x10_0000,
                forall|j: int|
                    0 <= j < y * w ==> self.px[j] == (if in_ring(
                        cx as int,
                        cy as int,
                        rad as int,
                        j % (w as int),
                        j / (w as int),
                    ) {
                        color
                    } else {
                        old(self).px[j]
                    }),
                forall|j: int| y * w <= j < n ==> self.px[j] == old(self).px[j],
            decreases h - y,
        {
            let mut x: usize = 0;
            while x < w
                invariant
                    self.valid(),
                    self.w == w,
                    self.h == h,
                    w == old(self).w,
                    h == old(self).h,
                    n == self.px.len(),
                    n == old(self).px.len(),
                    y < h,
                    x <= w,
                    rad > 0,
                    -0x10_0000 <= cx <= 0x10_0000,
                    -0x10_0000 <= cy <= 0x10_0000,
                    rad <= 0x10_0000,
                    forall|j: int|
                        0 <= j < y * w + x ==> self.px[j] == (if in_ring(
                            cx as int,
                            cy as int,
                            rad as int,
                            j % (w as int),
                            j / (w as int),
                        ) {
                            color
                        } else {
                            old(self).px[j]
                        }),
                    forall|j: int| y * w + x <= j < n ==> self.px[j] == old(self).px[j],
                decreases w - x,
            {
                proof {
                    lemma_grid_bounds(w as int, h as int, x as int, y as int);
                    lemma_grid(w as int, x as int, y as int);
                }
                let idx: usize = y * w + x;
                let dx: i64 = (x as i64) - cx;
                let dy: i64 = (y as i64) - cy;
                proof {
                    assert(0 <= (dx as int) * (dx as int) <= 0x1_0000_0000_0000) by (nonlinear_arith)
                        requires
                            -0x20_0000 <= dx as int <= 0x20_0000,
                    ;
                    assert(0 <= (dy as int) * (dy as int) <= 0x1_0000_0000_0000) by (nonlinear_arith)
                        requires
                            -0x20_0000 <= dy as int <= 0x20_0000,
                    ;
                    assert(0 <= (rad as int) * (rad as int) <= 0x1_0000_0000_0000)
                        by (nonlinear_arith)
                        requires
                            -0x20_0000 <= rad as int <= 0x20_0000,
                    ;
                    assert(0 <= ((rad - 1) as int) * ((rad - 1) as int) <= 0x1_0000_0000_0000)
                        by (nonlinear_arith)
                        requires
                            -0x20_0000 <= (rad - 1) as int <= 0x20_0000,
                    ;
                }
                let d2: i64 = dx * dx + dy * dy;
                if (rad - 1) * (rad - 1) <= d2 && d2 < rad * rad {
                    self.px.set(idx, color);
                }
                x += 1;
            }
            proof {
                assert((y as int + 1) * (w as int) == (y as int) * (w as int) + (w as int))
                    by (nonlinear_arith);
            }
            y += 1;
        }
        proof {
            assert(h * w == w * h) by (nonlinear_arith);
            assert(self.px@ =~= ring_painted(
                old(self).px@,
                w as int,
                cx as int,
                cy as int,
                rad as int,
                color,
            ));
        }
    }

    /// Permute every pixel into the presentation channel order, with the
    /// alpha byte pinned fully opaque.
    pub fn to_present(&self) -> (out: Vec<u32>)
        requires
            self.valid(),
        ensures
            out.len() == self.px.len(),
            forall|j: int| 0 <= j < out.len() ==> (#[trigger] out[j]) as int == present_spec(
                self.px[j] as int,
            ),
    {
        let n: usize = self.px.len();
        let mut out: Vec<u32> = Vec::new();
        let mut i: usize = 0;
        while i < n
            invariant
                self.valid(),
                n == self.px.len(),
                i <= n,
                out.len() == i,
                forall|j: int| 0 <= j < i ==> (#[trigger] out[j]) as int == present_spec(
                    self.px[j] as int,
                ),
            decreases n - i,
        {
            let p: u32 = self.px[i];
            proof {
                lemma_mod_bound(p as int, 256);
                lemma_mod_bound(p as int / 256, 256);
                lemma_mod_bound(p as int / 65536, 256);
            }
            let b: u32 = p % 256;
            let g: u32 = (p / 256) % 256;
            let r: u32 = (p / 65536) % 256;
            out.push(0xFF00_0000u32 + b * 65536 + g * 256 + r);
            i += 1;
        }
        out
    }
}

/// The presentation form of one pixel: alpha pinned to `0xFF`, the red and
/// blue channels exchanged.
pub open spec fn present_spec(p: int) -> int {
    0xFF00_0000 + (p % 256) * 65536 + ((p / 256) % 256) * 256 + (p / 65536) % 256
}

/// The rendered alpha byte of a pool element: its opacity scaled by its
/// remaining life.
pub open spec fn alpha_byte_spec(opacity: int, life: int) -> int {
    (opacity * life) / (FX_ONE as int)
}

/// Compute an element's rendered alpha byte.
pub fn alpha_byte(opacity: i64, life: i64) -> (r: i64)
    requires
        0 <= opacity <= 255,
        0 <= life <= FX_ONE,
    ensures
        r == alpha_byte_spec(opacity as int, life as int),
        0 <= r <= 255,
{
    proof {
        lemma_fx_mul_bound(opacity as int, life as int, 255, FX_ONE as int);
    }
    fx_mul(opacity, life)
}

/// The color word an alpha byte and an RGB triple compose to.
pub open spec fn shade_spec(alpha: int, rgb: u32) -> u32 {
    (alpha * 0x100_0000 + rgb) as u32
}

/// Compose a color word from an alpha byte and an RGB triple.
pub fn shade(alpha: i64, rgb: u32) -> (r: u32)
    requires
        0 <= alpha <= 255,
        rgb <= 0xFF_FFFF,
    ensures
        r == shade_spec(alpha as int, rgb),
        r as int == alpha * 0x100_0000 + rgb,
{
    (alpha as u32) * 0x100_0000 + rgb
}

} // verus!
