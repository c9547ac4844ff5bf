//! Planar geometry on fixed-point coordinates: the 2-D vector type, a
//! verified integer square root, and Euclidean distance.

use vstd::prelude::*;
use crate::fixed::clamp_spec;
use crate::fixed::fx_clamp;

verus! {

/// Largest coordinate magnitude the simulation keeps (16384 pixels in
/// Q16.16); every update clamps positions back into this range so that all
/// downstream arithmetic fits in `i64`.
pub const POS_LIMIT: i64 = 0x4000_0000;

/// A 2-D vector in fixed-point units.
#[derive(Clone, Copy, PartialEq, Eq, Structural, Debug)]
pub struct Vec2 {
    pub x: i64,
    pub y: i64,
}

impl Vec2 {
    /// Both coordinates lie within the simulation's coordinate range.
    pub open spec fn in_range(self) -> bool {
        &&& -POS_LIMIT <= self.x <= POS_LIMIT
        &&& -POS_LIMIT <= self.y <= POS_LIMIT
    }

    /// The componentwise clamp of `self` into the coordinate range.
    pub open spec fn clamped_spec(self) -> Vec2 {
        Vec2 {
            x: clamp_spec(self.x as int, -POS_LIMIT as int, POS_LIMIT as int) as i64,
            y: clamp_spec(self.y as int, -POS_LIMIT as int, POS_LIMIT as int) as i64,
        }
    }

    /// Construct a vector.
    pub fn new(x: i64, y: i64) -> (r: Vec2)
        ensures
            r.x == x,
            r.y == y,
    {
        Vec2 { x, y }
    }

    /// Clamp both coordinates into the coordinate range.
    pub fn clamped(self) -> (r: Vec2)
        ensures
            r == self.clamped_spec(),
            r.in_range(),
    {
        Vec2 { x: fx_clamp(self.x, -POS_LIMIT, POS_LIMIT), y: fx_clamp(self.y, -POS_LIMIT, POS_LIMIT) }
    }
}

/// The integer square root: the largest `r` with `r * r <= n`.
pub open spec fn isqrt_spec(n: int) -> int
    decreases n,
{
    if n < 1 {
        0
    } else {
        let r = isqrt_spec(n - 1);
        if (r + 1) * (r + 1) <= n {
            r + 1
        } else {
            r
        }
    }
}

/// The integer square root is characterized by `r^2 <= n < (r+1)^2`.
pub proof fn lemma_isqrt_bounds(n: int)
    requires
        n >= 0,
    ensures
        0 <= isqrt_spec(n),
        isqrt_spec(n) * isqrt_spec(n) <= n,
        n < (isqrt_spec(n) + 1) * (isqrt_spec(n) + 1),
    decreases n,
{
    if n > 0 {
        lemma_isqrt_bounds(n - 1);
        let r = isqrt_spec(n - 1);
        if (r + 1) * (r + 1) <= n {
            assert((r + 2) * (r + 2) > n) by (nonlinear_arith)
                requires
                    r >= 0,
                    n - 1 < (r + 1) * (r + 1),
            ;
        }
    }
}

/// Any `r` in the characteristic window is the integer square root.
pub proof fn lemma_isqrt_unique(n: int, r: int)
    requires
        n >= 0,
        r >= 0,
        r * r <= n,
        n < (r + 1) * (r + 1),
    ensures
        r == isqrt_spec(n),
{
    lemma_isqrt_bounds(n);
    let s = isqrt_spec(n);
    if r < s {
        assert((r + 1) * (r + 1) <= s * s) by (nonlinear_arith)
            requires
                0 <= r + 1 <= s,
        ;
    } else if s < r {
        assert((s + 1) * (s + 1) <= r * r) by (nonlinear_arith)
            requires
                0 <= s + 1 <= r,
        ;
    }
}

/// Integer square root by bisection.
pub fn isqrt64(n: u64) -> (r: u64)
    ensures
        r as int == isqrt_spec(n as int),
        (r as int) * (r as int) <= n as int,
        (n as int) < (r as int + 1) * (r as int + 1),
        r <= 0x1_0000_0000,
{
    let mut lo: u64 = 0;
    let mut hi: u64 = 0x1_0000_0000;
    while lo + 1 < hi
        invariant
            lo < hi <= 0x1_0000_0000,
            (lo as int) * (lo as int) <= n as int,
            (n as int) < (hi as int) * (hi as int),
        decreases hi - lo,
    {
        let mid: u64 = lo + (hi - lo) / 2;
        proof {
            assert((mid as int) * (mid as int) <= 0x1_0000_0000_0000_0000) by (nonlinear_arith)
                requires
                    0 <= mid as int <= 0x1_0000_0000,
            ;
        }
        let sq: u128 = (mid as u128) * (mid as u128);
        if sq <= n as u128 {
            lo = mid;
        } else {
            hi = mid;
        }
    }
    proof {
        lemma_isqrt_unique(n as int, lo as int);
    }
    lo
}

/// The squared Euclidean distance between two points.
pub open spec fn dist2_spec(a: Vec2, b: Vec2) -> int {
    (a.x - b.x) * (a.x - b.x) + (a.y - b.y) * (a.y - b.y)
}

/// The Euclidean distance between two points, floored to the fixed-point
/// grid.
pub open spec fn dist_spec(a: Vec2, b: Vec2) -> int {
    isqrt_spec(dist2_spec(a, b))
}

/// Euclidean distance of two in-range points.
pub fn fx_dist(a: Vec2, b: Vec2) -> (r: i64)
    requires
        a.in_range(),
        b.in_range(),
    ensures
        r as int == dist_spec(a, b),
        0 <= r <= 0x1_0000_0000,
{
    let dx: i64 = a.x - b.x;
    let dy: i64 = a.y - b.y;
    let dxa: u64 = if dx >= 0 {
        dx as u64
    } else {
        (-dx) as u64
    };
    let dya: u64 = if dy >= 0 {
        dy as u64
    } else {
        (-dy) as u64
    };
    proof {
        assert((dxa as int) * (dxa as int) == (dx as int) * (dx as int)) by (nonlinear_arith)
            requires
                dxa as int == if dx as int >= 0 { dx as int } else { -(dx as int) },
        ;
        assert((dya as int) * (dya as int) == (dy as int) * (dy as int)) by (nonlinear_arith)
            requires
                dya as int == if dy as int >= 0 { dy as int } else { -(dy as int) },
        ;
        assert((dxa as int) * (dxa as int) <= 0x4000_0000_0000_0000) by (nonlinear_arith)
            requires
                0 <= dxa as int <= 0x8000_0000,
        ;
        assert((dya as int) * (dya as int) <= 0x4000_0000_0000_0000) by (nonlinear_arith)
            requires
                0 <= dya as int <= 0x8000_0000,
        ;
    }
    let s: u64 = dxa * dxa + dya * dya;
    let r: u64 = isqrt64(s);
    r as i64
}

} // verus!
