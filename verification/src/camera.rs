//! The world camera: a screen-space offset, recomputed every tick, that
//! pans harder the farther the pointer sits from the viewport centre and
//! settles when cursor and character are centred.

use vstd::prelude::*;
use crate::fixed::FX_ONE;
use crate::fixed::clamp_spec;
use crate::fixed::div_floor;
use crate::fixed::fx_clamp;
use crate::fixed::fx_div;
use crate::fixed::fx_div_spec;
use crate::fixed::fx_lerp;
use crate::fixed::fx_lerp_spec;
use crate::fixed::fx_min;
use crate::fixed::fx_mul;
use crate::fixed::fx_mul_spec;
use crate::geom::POS_LIMIT;
use crate::geom::Vec2;
use crate::geom::dist_spec;
use crate::geom::fx_dist;
use crate::ctx::Viewport;

verus! {

/// The offset the camera steers toward: the current offset corrected by how
/// far the screen-space midpoint of cursor and character sits from the
/// viewport centre.
pub open spec fn camera_target_spec(offset: Vec2, cursor: Vec2, character: Vec2, vp: Viewport) -> Vec2 {
    let c = vp.center_spec();
    Vec2 {
        x: (offset.x + c.x - (cursor.x + character.x + offset.x) / 2) as i64,
        y: (offset.y + c.y - (cursor.y + character.y + offset.y) / 2) as i64,
    }
}

/// The panning fraction: the cursor's distance from the centre over the
/// viewport diagonal, times `delta`, capped at one.
pub open spec fn camera_t_spec(cursor: Vec2, vp: Viewport, delta: int) -> int {
    let intensity = fx_div_spec(dist_spec(cursor, vp.center_spec()), vp.diag_spec());
    let t0 = fx_mul_spec(intensity, delta);
    if t0 >= FX_ONE as int {
        FX_ONE as int
    } else {
        t0
    }
}

/// One camera tick: interpolate the offset toward its target by the panning
/// fraction, clamped into the coordinate range.
pub open spec fn camera_step_spec(
    offset: Vec2,
    cursor: Vec2,
    character: Vec2,
    vp: Viewport,
    delta: int,
) -> Vec2 {
    let t = camera_t_spec(cursor, vp, delta);
    let tgt = camera_target_spec(offset, cursor, character, vp);
    Vec2 {
        x: clamp_spec(
            fx_lerp_spec(offset.x as int, tgt.x as int, t),
            -POS_LIMIT as int,
            POS_LIMIT as int,
        ) as i64,
        y: clamp_spec(
            fx_lerp_spec(offset.y as int, tgt.y as int, t),
            -POS_LIMIT as int,
            POS_LIMIT as int,
        ) as i64,
    }
}

/// Advance the world offset by one tick.
pub fn camera_step(offset: Vec2, cursor: Vec2, character: Vec2, vp: Viewport, delta: i64) -> (r:
    Vec2)
    requires
        vp.valid(),
        offset.in_range(),
        cursor.in_range(),
        character.in_range(),
        0 <= delta <= FX_ONE,
    ensures
        r == camera_step_spec(offset, cursor, character, vp, delta as int),
        r.in_range(),
{
    let c: Vec2 = vp.center();
    let d: i64 = fx_dist(cursor, c);
    let diag: i64 = vp.diag_fx();
    let intensity: i64 = fx_div(d, diag);
    proof {
        assert((intensity as int) * (delta as int) <= 0x4000_0000_0000_0000) by (nonlinear_arith)
            requires
                0 <= intensity as int <= 0x1_0000_0000,
                0 <= delta as int <= 65536,
        ;
    }
    let t: i64 = fx_min(fx_mul(intensity, delta), FX_ONE);
    let sx: i64 = div_floor(cursor.x + character.x + offset.x, 2);
    let sy: i64 = div_floor(cursor.y + character.y + offset.y, 2);
    let tx: i64 = offset.x + c.x - sx;
    let ty: i64 = offset.y + c.y - sy;
    let nx: i64 = fx_clamp(fx_lerp(offset.x, tx, t), -POS_LIMIT, POS_LIMIT);
    let ny: i64 = fx_clamp(fx_lerp(offset.y, ty, t), -POS_LIMIT, POS_LIMIT);
    Vec2 { x: nx, y: ny }
}

/// At equilibrium the update is a no-op: when the screen-space midpoint of
/// cursor and character already sits at the viewport centre, the offset
/// comes back unchanged, whatever `delta`.
pub proof fn lemma_camera_equilibrium(
    offset: Vec2,
    cursor: Vec2,
    character: Vec2,
    vp: Viewport,
    delta: int,
)
    requires
        vp.valid(),
        offset.in_range(),
        cursor.in_range(),
        character.in_range(),
        0 <= delta <= FX_ONE as int,
        offset.x + vp.center_spec().x - (cursor.x + character.x + offset.x) / 2 == offset.x,
        offset.y + vp.center_spec().y - (cursor.y + character.y + offset.y) / 2 == offset.y,
    ensures
        camera_step_spec(offset, cursor, character, vp, delta) == offset,
{
    let t = camera_t_spec(cursor, vp, delta);
    let tgt = camera_target_spec(offset, cursor, character, vp);
    assert(tgt.x == offset.x);
    assert(tgt.y == offset.y);
    assert(fx_lerp_spec(offset.x as int, offset.x as int, t) == offset.x) by {
        assert(fx_mul_spec(0, t) == 0) by {
            vstd::arithmetic::div_mod::lemma_div_of0(FX_ONE as int);
        }
    }
    assert(fx_lerp_spec(offset.y as int, offset.y as int, t) == offset.y) by {
        assert(fx_mul_spec(0, t) == 0) by {
            vstd::arithmetic::div_mod::lemma_div_of0(FX_ONE as int);
        }
    }
}

} // verus!
