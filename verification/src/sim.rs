//! The force-field simulation: decaying, respawning particles and dust
//! grains drifting toward the cursor and the character.
//!
//! Every random draw enters as a plain argument (a `Draws` record), so the
//! step functions are verified for every possible draw; only the sampler at
//! the edge touches the generator.

use vstd::prelude::*;
use crate::fixed::FALLOFF_MAX;
use crate::fixed::FX_ONE;
use crate::fixed::clamp_spec;
use crate::fixed::falloff_spec;
use crate::fixed::falloff16;
use crate::fixed::fx_clamp;
use crate::fixed::fx_div;
use crate::fixed::fx_div_spec;
use crate::fixed::fx_mul;
use crate::fixed::fx_mul_spec;
use crate::fixed::lemma_falloff_positive;
use crate::fixed::lemma_fx_div_bound;
use crate::fixed::lemma_fx_mul_bound;
use crate::geom::POS_LIMIT;
use crate::geom::Vec2;
use crate::geom::dist_spec;
use crate::geom::fx_dist;
use crate::ctx::FrameCtx;
use vstd::arithmetic::div_mod::lemma_div_is_ordered;

verus! {

/// Attraction stiffness toward the cursor: `1.5`.
pub const K_CURSOR: i64 = 98304;

/// Attraction stiffness toward the character: `0.75`.
pub const K_CHARACTER: i64 = 49152;

/// How strongly a click flattens the cursor falloff: `0.05`.
pub const CLICK_BIAS: i64 = 3277;

/// Per-axis clamp of the normalised pull direction: `0.01`.
pub const PULL_CLAMP: i64 = 655;

/// Per-axis jitter amplitude as a fraction of the viewport size
/// (about `0.00005`).
pub const JITTER_K: i64 = 3;

/// Smallest respawn opacity byte (`0.15` of 255).
pub const OPACITY_LO: i64 = 38;

/// Largest respawn opacity byte (`0.8` of 255).
pub const OPACITY_HI: i64 = 204;

/// Largest opacity byte of the very first dust population (`0.4` of 255);
/// respawns use the wider range.
pub const OPACITY_FIRST_HI: i64 = 102;

/// A decaying, respawning point with a per-life rendered scale.
#[derive(Clone, Copy, PartialEq, Eq, Structural, Debug)]
pub struct Particle {
    pub pos: Vec2,
    pub life: i64,
    pub scale: i64,
    pub opacity: i64,
}

impl Particle {
    /// Life and scale stay in `[0, 1]`, the opacity byte in `[0, 255]`, the
    /// position in the coordinate range.
    pub open spec fn valid(self) -> bool {
        &&& self.pos.in_range()
        &&& 0 <= self.life <= FX_ONE
        &&& 0 <= self.scale <= FX_ONE
        &&& 0 <= self.opacity <= 255
    }
}

/// A decaying, respawning dust point, with no scale of its own.
#[derive(Clone, Copy, PartialEq, Eq, Structural, Debug)]
pub struct Grain {
    pub pos: Vec2,
    pub life: i64,
    pub opacity: i64,
}

impl Grain {
    /// Life stays in `[0, 1]`, the opacity byte in `[0, 255]`, the position
    /// in the coordinate range.
    pub open spec fn valid(self) -> bool {
        &&& self.pos.in_range()
        &&& 0 <= self.life <= FX_ONE
        &&& 0 <= self.opacity <= 255
    }
}

/// The random draws one element update may consume: per-axis jitter, a
/// respawn position, and fresh visual parameters.
#[derive(Clone, Copy, PartialEq, Eq, Structural, Debug)]
pub struct Draws {
    pub jx: i64,
    pub jy: i64,
    pub rx: i64,
    pub ry: i64,
    pub scale: i64,
    pub opacity: i64,
}

/// The jitter amplitude for this viewport.
pub open spec fn jitter_amp_spec(ctx: FrameCtx) -> int {
    fx_mul_spec(ctx.vp.vsize_spec(), JITTER_K as int)
}

/// The world-space window in which respawned elements land: the visible
/// screen rectangle carried back by the world offset.
pub open spec fn respawn_window_ok(d: Draws, ctx: FrameCtx) -> bool {
    &&& -ctx.offset.x <= d.rx <= -ctx.offset.x + ctx.vp.w_fx_spec()
    &&& -ctx.offset.y <= d.ry <= -ctx.offset.y + ctx.vp.h_fx_spec()
}

/// What the sampler guarantees of a draw: jitter within amplitude, respawn
/// position within the window, scale in `[0, 1]`, opacity in the respawn
/// range.
pub open spec fn draws_ok(d: Draws, ctx: FrameCtx) -> bool {
    &&& -jitter_amp_spec(ctx) <= d.jx <= jitter_amp_spec(ctx)
    &&& -jitter_amp_spec(ctx) <= d.jy <= jitter_amp_spec(ctx)
    &&& respawn_window_ok(d, ctx)
    &&& 0 <= d.scale <= FX_ONE
    &&& OPACITY_LO <= d.opacity <= OPACITY_HI
}

/// The cursor carried into world space: screen cursor minus world offset,
/// clamped into the coordinate range.
pub open spec fn world_cursor_spec(ctx: FrameCtx) -> Vec2 {
    (Vec2 { x: (ctx.cursor.x - ctx.offset.x) as i64, y: (ctx.cursor.y - ctx.offset.y) as i64 }).clamped_spec()
}

/// The cursor carried into world space.
pub fn world_cursor(ctx: &FrameCtx) -> (r: Vec2)
    requires
        ctx.valid(),
    ensures
        r == world_cursor_spec(*ctx),
        r.in_range(),
{
    (Vec2 { x: ctx.cursor.x - ctx.offset.x, y: ctx.cursor.y - ctx.offset.y }).clamped()
}

/// The distance-based attenuation of one attractor: the element's distance,
/// normalised by the viewport size, fed through `(1 + k*d - bias)^16` with
/// saturation.
pub open spec fn attenuation_spec(pos: Vec2, attractor: Vec2, vsize: int, k: int, bias: int) -> int {
    falloff_spec(FX_ONE + fx_mul_spec(k, fx_div_spec(dist_spec(pos, attractor), vsize)) - bias)
}

/// Compute one attractor's attenuation.
pub fn attenuation(pos: Vec2, attractor: Vec2, vsize: i64, k: i64, bias: i64) -> (r: i64)
    requires
        pos.in_range(),
        attractor.in_range(),
        FX_ONE <= vsize <= 0x4000_0000,
        0 <= k <= 0x2_0000,
        0 <= bias <= CLICK_BIAS,
    ensures
        r == attenuation_spec(pos, attractor, vsize as int, k as int, bias as int),
        28837 <= r <= FALLOFF_MAX,
{
    let d: i64 = fx_dist(pos, attractor);
    let dn: i64 = fx_div(d, vsize);
    proof {
        assert((k as int) * (dn as int) <= 0x2_0000_0000_0000) by (nonlinear_arith)
            requires
                0 <= k as int <= 0x2_0000,
                0 <= dn as int <= 0x1_0000_0000,
        ;
        assert(0 <= (k as int) * (dn as int)) by (nonlinear_arith)
            requires
                0 <= k,
                0 <= dn,
        ;
        lemma_div_is_ordered((k as int) * (dn as int), 0x2_0000_0000_0000, FX_ONE as int);
    }
    let kd: i64 = fx_mul(k, dn);
    let base: i64 = FX_ONE + kd - bias;
    let f: i64 = falloff16(base);
    proof {
        lemma_falloff_positive(base as int);
    }
    f
}

/// One axis of the pull a single attractor contributes: the clamped
/// normalised direction, scaled by viewport size, speed and the click
/// factor, attenuated by the falloff.
pub open spec fn pull_spec(
    pos_c: int,
    attr_c: int,
    vsize: int,
    speed: int,
    factor: int,
    fall: int,
) -> int {
    let dvn = clamp_spec(fx_div_spec(attr_c - pos_c, vsize), -PULL_CLAMP as int, PULL_CLAMP as int);
    fx_div_spec(fx_mul_spec(fx_mul_spec(fx_mul_spec(vsize, speed), dvn), factor), fall)
}

/// Compute one axis of one attractor's pull.
pub fn pull(pos_c: i64, attr_c: i64, vsize: i64, speed: i64, factor: i64, fall: i64) -> (r: i64)
    requires
        -POS_LIMIT <= pos_c <= POS_LIMIT,
        -POS_LIMIT <= attr_c <= POS_LIMIT,
        FX_ONE <= vsize <= 0x4000_0000,
        0 <= speed <= 0x10_0000,
        FX_ONE <= factor <= 0x2_0000,
        28837 <= fall <= FALLOFF_MAX,
    ensures
        r == pull_spec(
            pos_c as int,
            attr_c as int,
            vsize as int,
            speed as int,
            factor as int,
            fall as int,
        ),
        -0x2_0000_0005 <= r <= 0x2_0000_0004,
{
    let diff: i64 = attr_c - pos_c;
    let dvn: i64 = fx_clamp(fx_div(diff, vsize), -PULL_CLAMP, PULL_CLAMP);
    proof {
        lemma_fx_mul_bound(vsize as int, speed as int, 0x4000_0000, 0x10_0000);
        assert(0x4000_0000int * 0x10_0000int / 65536int == 0x4_0000_0000);
    }
    let c1: i64 = fx_mul(vsize, speed);
    proof {
        lemma_fx_mul_bound(c1 as int, dvn as int, 0x4_0000_0000, PULL_CLAMP as int);
    }
    let c2: i64 = fx_mul(c1, dvn);
    proof {
        lemma_fx_mul_bound(c2 as int, factor as int, 0xA3C_0001, 0x2_0000);
    }
    let c3: i64 = fx_mul(c2, factor);
    proof {
        lemma_fx_div_bound(c3 as int, fall as int, 0x1478_0004);
    }
    fx_div(c3, fall)
}

/// One tick's drift of a surviving element: jitter plus the attenuated
/// pulls toward the world cursor and the character, clamped into the
/// coordinate range.
pub open spec fn drift_spec(pos: Vec2, d: Draws, ctx: FrameCtx, speed_k: int) -> Vec2 {
    let wc = world_cursor_spec(ctx);
    let vsize = ctx.vp.vsize_spec();
    let speed = fx_mul_spec(speed_k, ctx.delta as int);
    let bias = fx_mul_spec(CLICK_BIAS as int, ctx.click as int);
    let fall_c = attenuation_spec(pos, wc, vsize, K_CURSOR as int, bias);
    let fall_h = attenuation_spec(pos, ctx.character, vsize, K_CHARACTER as int, 0);
    let factor_c = ctx.click + FX_ONE;
    (Vec2 {
        x: (pos.x + d.jx + pull_spec(pos.x as int, wc.x as int, vsize, speed, factor_c, fall_c)
            + pull_spec(pos.x as int, ctx.character.x as int, vsize, speed, FX_ONE as int, fall_h)) as i64,
        y: (pos.y + d.jy + pull_spec(pos.y as int, wc.y as int, vsize, speed, factor_c, fall_c)
            + pull_spec(pos.y as int, ctx.character.y as int, vsize, speed, FX_ONE as int, fall_h)) as i64,
    }).clamped_spec()
}

/// Compute one tick's drift.
pub fn drift(pos: Vec2, d: Draws, ctx: &FrameCtx, speed_k: i64) -> (r: Vec2)
    requires
        ctx.valid(),
        pos.in_range(),
        draws_ok(d, *ctx),
        0 <= speed_k <= 0x10_0000,
    ensures
        r == drift_spec(pos, d, *ctx, speed_k as int),
        r.in_range(),
{
    let wc: Vec2 = world_cursor(ctx);
    let vsize: i64 = ctx.vp.vsize();
    proof {
        assert((speed_k as int) * (ctx.delta as int) <= 0x4000_0000_0000_0000) by (nonlinear_arith)
            requires
                0 <= speed_k as int <= 0x10_0000,
                0 <= ctx.delta as int <= 65536,
        ;
        assert((CLICK_BIAS as int) * (ctx.click as int) <= 0x4000_0000_0000_0000)
            by (nonlinear_arith)
            requires
                0 <= ctx.click as int <= 65536,
        ;
        // The jitter amplitude is small: vsize * 3 / FX_ONE <= 49152.
        lemma_div_is_ordered(ctx.vp.vsize_spec() * 3, 0xC000_0000, FX_ONE as int);
    }
    let speed: i64 = fx_mul(speed_k, ctx.delta);
    let bias: i64 = fx_mul(CLICK_BIAS, ctx.click);
    let fall_c: i64 = attenuation(pos, wc, vsize, K_CURSOR, bias);
    let fall_h: i64 = attenuation(pos, ctx.character, vsize, K_CHARACTER, 0);
    let factor_c: i64 = ctx.click + FX_ONE;
    let pcx: i64 = pull(pos.x, wc.x, vsize, speed, factor_c, fall_c);
    let pcy: i64 = pull(pos.y, wc.y, vsize, speed, factor_c, fall_c);
    let phx: i64 = pull(pos.x, ctx.character.x, vsize, speed, FX_ONE, fall_h);
    let phy: i64 = pull(pos.y, ctx.character.y, vsize, speed, FX_ONE, fall_h);
    let nx: i64 = pos.x + d.jx + pcx + phx;
    let ny: i64 = pos.y + d.jy + pcy + phy;
    (Vec2 { x: nx, y: ny }).clamped()
}

/// Where a respawned element lands: the drawn window position, clamped into
/// the coordinate range.
pub open spec fn respawn_pos_spec(d: Draws) -> Vec2 {
    (Vec2 { x: d.rx, y: d.ry }).clamped_spec()
}

/// The deterministic life evolution of one tick: decay by
/// `decay * delta`, or reset to exactly one when no more than that is left.
pub open spec fn life_step_spec(life: int, decay: int, delta: int) -> int {
    let sub = fx_mul_spec(decay, delta);
    if life > sub {
        life - sub
    } else {
        FX_ONE as int
    }
}

/// One particle tick: decay and drift, or respawn with the drawn position
/// and visual parameters.
pub open spec fn particle_step_spec(
    p: Particle,
    d: Draws,
    ctx: FrameCtx,
    decay: int,
    speed_k: int,
) -> Particle {
    let sub = fx_mul_spec(decay, ctx.delta as int);
    if p.life > sub {
        Particle {
            pos: drift_spec(p.pos, d, ctx, speed_k),
            life: (p.life - sub) as i64,
            scale: p.scale,
            opacity: p.opacity,
        }
    } else {
        Particle { pos: respawn_pos_spec(d), life: FX_ONE, scale: d.scale, opacity: d.opacity }
    }
}

/// One dust tick: as the particle tick, but a grain has no scale.
pub open spec fn grain_step_spec(g: Grain, d: Draws, ctx: FrameCtx, decay: int, speed_k: int) -> Grain {
    let sub = fx_mul_spec(decay, ctx.delta as int);
    if g.life > sub {
        Grain { pos: drift_spec(g.pos, d, ctx, speed_k), life: (g.life - sub) as i64, opacity: g.opacity }
    } else {
        Grain { pos: respawn_pos_spec(d), life: FX_ONE, opacity: d.opacity }
    }
}

/// Advance one particle by one tick.
///
/// Respawn happens exactly when `life <= decay * delta`; it resets life to
/// exactly one and re-randomizes scale and opacity, which otherwise stay
/// untouched. Life remains in `[0, 1]` either way.
pub fn particle_step(p: &Particle, d: Draws, ctx: &FrameCtx, decay: i64, speed_k: i64) -> (r:
    Particle)
    requires
        ctx.valid(),
        p.valid(),
        draws_ok(d, *ctx),
        0 <= decay <= FX_ONE,
        0 <= speed_k <= 0x10_0000,
    ensures
        r == particle_step_spec(*p, d, *ctx, decay as int, speed_k as int),
        r.valid(),
        r.life == life_step_spec(p.life as int, decay as int, ctx.delta as int),
        p.life > fx_mul_spec(decay as int, ctx.delta as int) ==> r.scale == p.scale && r.opacity
            == p.opacity,
        p.life <= fx_mul_spec(decay as int, ctx.delta as int) ==> r.life == FX_ONE && 0 <= r.scale
            <= FX_ONE && OPACITY_LO <= r.opacity <= OPACITY_HI,
{
    proof {
        assert((decay as int) * (ctx.delta as int) <= 0x4000_0000_0000_0000) by (nonlinear_arith)
            requires
                0 <= decay as int <= 65536,
                0 <= ctx.delta as int <= 65536,
        ;
    }
    let sub: i64 = fx_mul(decay, ctx.delta);
    if p.life > sub {
        Particle {
            pos: drift(p.pos, d, ctx, speed_k),
            life: p.life - sub,
            scale: p.scale,
            opacity: p.opacity,
        }
    } else {
        Particle {
            pos: (Vec2 { x: d.rx, y: d.ry }).clamped(),
            life: FX_ONE,
            scale: d.scale,
            opacity: d.opacity,
        }
    }
}

/// Advance one dust grain by one tick; as `particle_step`, without a scale.
pub fn grain_step(g: &Grain, d: Draws, ctx: &FrameCtx, decay: i64, speed_k: i64) -> (r: Grain)
    requires
        ctx.valid(),
        g.valid(),
        draws_ok(d, *ctx),
        0 <= decay <= FX_ONE,
        0 <= speed_k <= 0x10_0000,
    ensures
        r == grain_step_spec(*g, d, *ctx, decay as int, speed_k as int),
        r.valid(),
        r.life == life_step_spec(g.life as int, decay as int, ctx.delta as int),
        g.life > fx_mul_spec(decay as int, ctx.delta as int) ==> r.opacity == g.opacity,
        g.life <= fx_mul_spec(decay as int, ctx.delta as int) ==> r.life == FX_ONE && OPACITY_LO
            <= r.opacity <= OPACITY_HI,
{
    proof {
        assert((decay as int) * (ctx.delta as int) <= 0x4000_0000_0000_0000) by (nonlinear_arith)
            requires
                0 <= decay as int <= 65536,
                0 <= ctx.delta as int <= 65536,
        ;
    }
    let sub: i64 = fx_mul(decay, ctx.delta);
    if g.life > sub {
        Grain { pos: drift(g.pos, d, ctx, speed_k), life: g.life - sub, opacity: g.opacity }
    } else {
        Grain { pos: (Vec2 { x: d.rx, y: d.ry }).clamped(), life: FX_ONE, opacity: d.opacity }
    }
}

/// Sample the draws one element update may consume.
pub fn sample_draws(ctx: &FrameCtx, rng: &mut rand::rngs::ThreadRng) -> (d: Draws)
    requires
        ctx.valid(),
    ensures
        draws_ok(d, *ctx),
{
    let vsize: i64 = ctx.vp.vsize();
    let amp: i64 = fx_mul(vsize, JITTER_K);
    let jx: i64 = crate::rng::draw_in(rng, -amp, amp);
    let jy: i64 = crate::rng::draw_in(rng, -amp, amp);
    let lox: i64 = -ctx.offset.x;
    let rx: i64 = crate::rng::draw_in(rng, lox, lox + ctx.vp.w_fx());
    let loy: i64 = -ctx.offset.y;
    let ry: i64 = crate::rng::draw_in(rng, loy, loy + ctx.vp.h_fx());
    let scale: i64 = crate::rng::draw_in(rng, 0, FX_ONE);
    let opacity: i64 = crate::rng::draw_in(rng, OPACITY_LO, OPACITY_HI);
    Draws { jx, jy, rx, ry, scale, opacity }
}

/// The successor relation one pool element satisfies after a tick: it is
/// the step of its predecessor under some in-range draw.
pub open spec fn particle_stepped(
    pre: Particle,
    post: Particle,
    ctx: FrameCtx,
    decay: int,
    speed_k: int,
) -> bool {
    exists|d: Draws| draws_ok(d, ctx) && post == particle_step_spec(pre, d, ctx, decay, speed_k)
}

/// The successor relation one dust grain satisfies after a tick.
pub open spec fn grain_stepped(
    pre: Grain,
    post: Grain,
    ctx: FrameCtx,
    decay: int,
    speed_k: int,
) -> bool {
    exists|d: Draws| draws_ok(d, ctx) && post == grain_step_spec(pre, d, ctx, decay, speed_k)
}

/// Advance the whole particle pool by one tick.
///
/// Each element's successor is its step under some in-range draw; the life
/// evolution itself is deterministic, so it is stated exactly: life stays
/// in `[0, 1]`, decays by `decay * delta` while more than that is left, and
/// is reset to exactly one otherwise.
pub fn particles_tick(
    pool: &mut Vec<Particle>,
    ctx: &FrameCtx,
    decay: i64,
    speed_k: i64,
    rng: &mut rand::rngs::ThreadRng,
)
    requires
        ctx.valid(),
        0 <= decay <= FX_ONE,
        0 <= speed_k <= 0x10_0000,
        forall|i: int| 0 <= i < old(pool).len() ==> #[trigger] old(pool)[i].valid(),
    ensures
        final(pool).len() == old(pool).len(),
        forall|i: int| 0 <= i < final(pool).len() ==> #[trigger] final(pool)[i].valid(),
        forall|i: int|
            0 <= i < final(pool).len() ==> #[trigger] particle_stepped(
                old(pool)[i],
                final(pool)[i],
                *ctx,
                decay as int,
                speed_k as int,
            ),
        forall|i: int|
            0 <= i < final(pool).len() ==> (#[trigger] final(pool)[i]).life == life_step_spec(
                old(pool)[i].life as int,
                decay as int,
                ctx.delta as int,
            ),
        forall|i: int|
            0 <= i < final(pool).len() && old(pool)[i].life > fx_mul_spec(
                decay as int,
                ctx.delta as int,
            ) ==> (#[trigger] final(pool)[i]).scale == old(pool)[i].scale && final(pool)[i].opacity
                == old(pool)[i].opacity,
        forall|i: int|
            0 <= i < final(pool).len() && old(pool)[i].life <= fx_mul_spec(
                decay as int,
                ctx.delta as int,
            ) ==> 0 <= (#[trigger] final(pool)[i]).scale <= FX_ONE && OPACITY_LO <= final(pool)[i].opacity <= OPACITY_HI,
{
    let n: usize = pool.len();
    let mut i: usize = 0;
    while i < n
        invariant
            ctx.valid(),
            0 <= decay <= FX_ONE,
            0 <= speed_k <= 0x10_0000,
            i <= n,
            pool.len() == n,
            old(pool).len() == n,
            forall|j: int| i <= j < n ==> pool[j] == old(pool)[j],
            forall|j: int| 0 <= j < n ==> #[trigger] old(pool)[j].valid(),
            forall|j: int| 0 <= j < i ==> #[trigger] pool[j].valid(),
            forall|j: int|
                0 <= j < i ==> #[trigger] particle_stepped(
                    old(pool)[j],
                    pool[j],
                    *ctx,
                    decay as int,
                    speed_k as int,
                ),
            forall|j: int|
                0 <= j < i ==> (#[trigger] pool[j]).life == life_step_spec(
                    old(pool)[j].life as int,
                    decay as int,
                    ctx.delta as int,
                ),
            forall|j: int|
                0 <= j < i && old(pool)[j].life > fx_mul_spec(decay as int, ctx.delta as int)
                    ==> (#[trigger] pool[j]).scale == old(pool)[j].scale && pool[j].opacity == old(pool)[j].opacity,
            forall|j: int|
                0 <= j < i && old(pool)[j].life <= fx_mul_spec(decay as int, ctx.delta as int)
                    ==> 0 <= (#[trigger] pool[j]).scale <= FX_ONE && OPACITY_LO <= pool[j].opacity
                    <= OPACITY_HI,
        decreases n - i,
    {
        let d: Draws = sample_draws(ctx, rng);
        let cur: Particle = pool[i];
        let nw: Particle = particle_step(&cur, d, ctx, decay, speed_k);
        pool.set(i, nw);
        proof {
            assert(draws_ok(d, *ctx) && pool[i as int] == particle_step_spec(
                old(pool)[i as int],
                d,
                *ctx,
                decay as int,
                speed_k as int,
            ));
            assert(particle_stepped(
                old(pool)[i as int],
                pool[i as int],
                *ctx,
                decay as int,
                speed_k as int,
            ));
        }
        i += 1;
    }
}

/// Advance the whole dust pool by one tick; the same statement as
/// `particles_tick`, for grains.
pub fn dust_tick(
    pool: &mut Vec<Grain>,
    ctx: &FrameCtx,
    decay: i64,
    speed_k: i64,
    rng: &mut rand::rngs::ThreadRng,
)
    requires
        ctx.valid(),
        0 <= decay <= FX_ONE,
        0 <= speed_k <= 0x10_0000,
        forall|i: int| 0 <= i < old(pool).len() ==> #[trigger] old(pool)[i].valid(),
    ensures
        final(pool).len() == old(pool).len(),
        forall|i: int| 0 <= i < final(pool).len() ==> #[trigger] final(pool)[i].valid(),
        forall|i: int|
            0 <= i < final(pool).len() ==> #[trigger] grain_stepped(
                old(pool)[i],
                final(pool)[i],
                *ctx,
                decay as int,
                speed_k as int,
            ),
        forall|i: int|
            0 <= i < final(pool).len() ==> (#[trigger] final(pool)[i]).life == life_step_spec(
                old(pool)[i].life as int,
                decay as int,
                ctx.delta as int,
            ),
        forall|i: int|
            0 <= i < final(pool).len() && old(pool)[i].life > fx_mul_spec(
                decay as int,
                ctx.delta as int,
            ) ==> (#[trigger] final(pool)[i]).opacity == old(pool)[i].opacity,
        forall|i: int|
            0 <= i < final(pool).len() && old(pool)[i].life <= fx_mul_spec(
                decay as int,
                ctx.delta as int,
            ) ==> OPACITY_LO <= (#[trigger] final(pool)[i]).opacity <= OPACITY_HI,
{
    let n: usize = pool.len();
    let mut i: usize = 0;
    while i < n
        invariant
            ctx.valid(),
            0 <= decay <= FX_ONE,
            0 <= speed_k <= 0x10_0000,
            i <= n,
            pool.len() == n,
            old(pool).len() == n,
            forall|j: int| i <= j < n ==> pool[j] == old(pool)[j],
            forall|j: int| 0 <= j < n ==> #[trigger] old(pool)[j].valid(),
            forall|j: int| 0 <= j < i ==> #[trigger] pool[j].valid(),
            forall|j: int|
                0 <= j < i && old(pool)[j].life > fx_mul_spec(decay as int, ctx.delta as int)
                    ==> (#[trigger] pool[j]).opacity == old(pool)[j].opacity,
            forall|j: int|
                0 <= j < i && old(pool)[j].life <= fx_mul_spec(decay as int, ctx.delta as int)
                    ==> OPACITY_LO <= (#[trigger] pool[j]).opacity <= OPACITY_HI,
            forall|j: int|
                0 <= j < i ==> #[trigger] grain_stepped(
                    old(pool)[j],
                    pool[j],
                    *ctx,
                    decay as int,
                    speed_k as int,
                ),
            forall|j: int|
                0 <= j < i ==> (#[trigger] pool[j]).life == life_step_spec(
                    old(pool)[j].life as int,
                    decay as int,
                    ctx.delta as int,
                ),
        decreases n - i,
    {
        let d: Draws = sample_draws(ctx, rng);
        let cur: Grain = pool[i];
        let nw: Grain = grain_step(&cur, d, ctx, decay, speed_k);
        pool.set(i, nw);
        proof {
            assert(draws_ok(d, *ctx) && pool[i as int] == grain_step_spec(
                old(pool)[i as int],
                d,
                *ctx,
                decay as int,
                speed_k as int,
            ));
            assert(grain_stepped(
                old(pool)[i as int],
                pool[i as int],
                *ctx,
                decay as int,
                speed_k as int,
            ));
        }
        i += 1;
    }
}

/// Build the initial particle population: random life, scale, opacity and a
/// position inside the visible window.
pub fn seed_particles(count: usize, ctx: &FrameCtx, rng: &mut rand::rngs::ThreadRng) -> (v: Vec<
    Particle,
>)
    requires
        ctx.valid(),
    ensures
        v.len() == count,
        forall|i: int| 0 <= i < v.len() ==> #[trigger] v[i].valid(),
        forall|i: int| 0 <= i < v.len() ==> OPACITY_LO <= #[trigger] v[i].opacity <= OPACITY_HI,
{
    let mut v: Vec<Particle> = Vec::new();
    let mut i: usize = 0;
    while i < count
        invariant
            ctx.valid(),
            i <= count,
            v.len() == i,
            forall|j: int| 0 <= j < v.len() ==> #[trigger] v[j].valid(),
            forall|j: int| 0 <= j < v.len() ==> OPACITY_LO <= #[trigger] v[j].opacity <= OPACITY_HI,
        decreases count - i,
    {
        let d: Draws = sample_draws(ctx, rng);
        let life: i64 = crate::rng::draw_in(rng, 0, FX_ONE);
        v.push(
            Particle {
                pos: (Vec2 { x: d.rx, y: d.ry }).clamped(),
                life,
                scale: d.scale,
                opacity: d.opacity,
            },
        );
        i += 1;
    }
    v
}

/// Build the initial dust population. Only this very first population uses
/// the narrower opacity range; respawns use the wider one.
pub fn seed_dust(count: usize, ctx: &FrameCtx, rng: &mut rand::rngs::ThreadRng) -> (v: Vec<Grain>)
    requires
        ctx.valid(),
    ensures
        v.len() == count,
        forall|i: int| 0 <= i < v.len() ==> #[trigger] v[i].valid(),
        forall|i: int|
            0 <= i < v.len() ==> OPACITY_LO <= #[trigger] v[i].opacity <= OPACITY_FIRST_HI,
{
    let mut v: Vec<Grain> = Vec::new();
    let mut i: usize = 0;
    while i < count
        invariant
            ctx.valid(),
            i <= count,
            v.len() == i,
            forall|j: int| 0 <= j < v.len() ==> #[trigger] v[j].valid(),
            forall|j: int|
                0 <= j < v.len() ==> OPACITY_LO <= #[trigger] v[j].opacity <= OPACITY_FIRST_HI,
        decreases count - i,
    {
        let d: Draws = sample_draws(ctx, rng);
        let life: i64 = crate::rng::draw_in(rng, 0, FX_ONE);
        let opacity: i64 = crate::rng::draw_in(rng, OPACITY_LO, OPACITY_FIRST_HI);
        v.push(Grain { pos: (Vec2 { x: d.rx, y: d.ry }).clamped(), life, opacity });
        i += 1;
    }
    v
}

} // verus!
