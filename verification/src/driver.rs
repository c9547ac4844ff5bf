//! The frame driver: input events, the per-tick orchestration (clock,
//! click, character, camera, pools, in that order) and the per-frame walk
//! of the rasterizer in draw order.

use vstd::prelude::*;
use crate::fixed::FX_ONE;
use crate::fixed::div_floor;
use crate::fixed::fx_mul;
use crate::fixed::fx_mul_spec;
use crate::fixed::fx_max;
use crate::geom::Vec2;
use crate::ctx::Config;
use crate::ctx::FrameCtx;
use crate::ctx::Viewport;
use crate::ctx::click_step;
use crate::ctx::click_step_spec;
use crate::camera::camera_step;
use crate::camera::camera_step_spec;
use crate::clock::Clock;
use crate::clock::delta_fx_spec;
use crate::raster::Surface;
use crate::raster::alpha_byte;
use crate::raster::alpha_byte_spec;
use crate::raster::disc_painted;
use crate::raster::ring_painted;
use crate::raster::shade;
use crate::raster::shade_spec;
use crate::scene::Scene;
use crate::scene::character_step;
use crate::scene::character_step_spec;
use crate::sim::Grain;
use crate::sim::Particle;
use crate::sim::dust_tick;
use crate::sim::grain_stepped;
use crate::sim::life_step_spec;
use crate::sim::particle_stepped;
use crate::sim::particles_tick;
use crate::sim::seed_dust;
use crate::sim::seed_particles;
use vstd::arithmetic::div_mod::lemma_div_is_ordered;

verus! {

/// The highlight color all circles share (an RGB triple).
pub const HIGHLIGHT_RGB: u32 = 0xB2D8E5;

/// The background pixel, fully opaque.
pub const BACKGROUND_PX: u32 = 0xFF11_1119;

/// The alpha byte of scene-graph nodes (a fixed translucent stroke).
pub const NODE_ALPHA: i64 = 128;

/// `0.025`: particle radius coefficient of the smaller viewport dimension.
pub const RADIUS_PARTICLE: i64 = 1638;

/// `0.005`: dust radius coefficient.
pub const RADIUS_DUST: i64 = 328;

/// `0.05`: node and cursor-glyph radius coefficient.
pub const RADIUS_NODE: i64 = 3277;

/// `25.0`: how many pixels a full click shrinks the cursor glyph by.
pub const CURSOR_SHRINK: i64 = 1638400;

/// An input event, already reduced to plain values by the host.
#[derive(Clone, Copy, PartialEq, Eq, Structural, Debug)]
pub enum Event {
    PointerMoved(i64, i64),
    ButtonPressed,
    ButtonReleased,
    Resized(u32, u32),
    CloseRequested,
}

/// Truncate a fixed-point coordinate to whole pixels.
fn fx_to_px(v: i64) -> (r: i64)
    requires
        -0x1_0000_0000 <= v <= 0x1_0000_0000,
    ensures
        r == v as int / (FX_ONE as int),
        -65536 <= r <= 65536,
{
    proof {
        lemma_div_is_ordered(v as int, 0x1_0000_0000, 65536);
        lemma_div_is_ordered(-0x1_0000_0000, v as int, 65536);
    }
    div_floor(v, FX_ONE)
}

/// The viewport after a resize request: zero-area or oversized requests
/// are ignored.
pub open spec fn resize_vp_spec(vp: Viewport, w: u32, h: u32) -> Viewport {
    if 1 <= w <= 16384 && 1 <= h <= 16384 {
        Viewport { w, h }
    } else {
        vp
    }
}

/// Resizing away and back restores the viewport, and with it every derived
/// constant (the reference size, the centre, the diagonal): the resize path
/// itself leaves no drift behind.
pub proof fn lemma_resize_round_trip(vp: Viewport, w: u32, h: u32)
    requires
        vp.valid(),
    ensures
        resize_vp_spec(resize_vp_spec(vp, w, h), vp.w, vp.h) == vp,
        resize_vp_spec(resize_vp_spec(vp, w, h), vp.w, vp.h).vsize_spec() == vp.vsize_spec(),
        resize_vp_spec(resize_vp_spec(vp, w, h), vp.w, vp.h).center_spec() == vp.center_spec(),
        resize_vp_spec(resize_vp_spec(vp, w, h), vp.w, vp.h).diag_spec() == vp.diag_spec(),
{
}

/// The whole animation state the driver threads through events and ticks.
pub struct World {
    pub cfg: Config,
    pub vp: Viewport,
    pub clock: Clock,
    pub click: i64,
    pub pressed: bool,
    pub cursor: Vec2,
    pub offset: Vec2,
    pub particles: Vec<Particle>,
    pub dust: Vec<Grain>,
    pub scene: Scene,
    pub running: bool,
}

impl World {
    /// Every component is in its own valid range and the scene holds the
    /// one character entity.
    pub open spec fn valid(self) -> bool {
        &&& self.cfg.valid()
        &&& self.vp.valid()
        &&& self.clock.valid()
        &&& 0 <= self.click <= FX_ONE
        &&& self.cursor.in_range()
        &&& self.offset.in_range()
        &&& forall|i: int| 0 <= i < self.particles.len() ==> (#[trigger] self.particles[i]).valid()
        &&& forall|i: int| 0 <= i < self.dust.len() ==> (#[trigger] self.dust[i]).valid()
        &&& self.scene.valid()
        &&& self.scene.entities.len() == 1
    }

    /// The character's position: the root node of the sole entity.
    pub open spec fn character_spec(self) -> Vec2 {
        self.scene.nodes[self.scene.entities[0].root as int].pos
    }

    /// Build the world: zeroed tick state, randomized pools, the character
    /// at the origin.
    pub fn new(cfg: Config, w: u32, h: u32, start_micros: u64, rng: &mut rand::rngs::ThreadRng) -> (r:
        World)
        requires
            cfg.valid(),
            1 <= w <= 16384,
            1 <= h <= 16384,
        ensures
            r.valid(),
            r.cfg == cfg,
            r.vp == (Viewport { w, h }),
            r.click == 0,
            r.pressed == false,
            r.cursor == (Vec2 { x: 0, y: 0 }),
            r.offset == (Vec2 { x: 0, y: 0 }),
            r.character_spec() == (Vec2 { x: 0, y: 0 }),
            r.particles.len() == cfg.particle_count,
            r.dust.len() == cfg.dust_count,
            r.running,
    {
        let vp: Viewport = Viewport::new(w, h);
        let zero: Vec2 = Vec2::new(0, 0);
        let seed_ctx: FrameCtx = FrameCtx {
            delta: 0,
            click: 0,
            cursor: zero,
            character: zero,
            offset: zero,
            vp,
        };
        let particles: Vec<Particle> = seed_particles(cfg.particle_count, &seed_ctx, rng);
        let dust: Vec<Grain> = seed_dust(cfg.dust_count, &seed_ctx, rng);
        World {
            cfg,
            vp,
            clock: Clock::start(start_micros),
            click: 0,
            pressed: false,
            cursor: zero,
            offset: zero,
            particles,
            dust,
            scene: Scene::character(zero),
            running: true,
        }
    }

    /// Fold one input event into the tick state: the pointer moves the
    /// cursor, a press arms the click edge until the next tick, a resize
    /// swaps the viewport (zero-area requests are ignored), a close stops
    /// the loop. Nothing else changes.
    pub fn apply_event(&mut self, e: Event)
        requires
            old(self).valid(),
        ensures
            final(self).valid(),
            final(self).cfg == old(self).cfg,
            final(self).clock == old(self).clock,
            final(self).click == old(self).click,
            final(self).offset == old(self).offset,
            final(self).particles == old(self).particles,
            final(self).dust == old(self).dust,
            final(self).scene == old(self).scene,
            match e {
                Event::PointerMoved(x, y) => final(self).cursor == (Vec2 { x, y }).clamped_spec()
                    && final(self).vp == old(self).vp && final(self).pressed == old(self).pressed
                    && final(self).running == old(self).running,
                Event::ButtonPressed => final(self).pressed && final(self).cursor == old(
                    self,
                ).cursor && final(self).vp == old(self).vp && final(self).running == old(
                    self,
                ).running,
                Event::ButtonReleased => *final(self) == *old(self),
                Event::Resized(w, h) => final(self).vp == resize_vp_spec(old(self).vp, w, h)
                    && final(self).cursor == old(self).cursor && final(self).pressed == old(
                    self,
                ).pressed && final(self).running == old(self).running,
                Event::CloseRequested => !final(self).running && final(self).cursor == old(
                    self,
                ).cursor && final(self).vp == old(self).vp && final(self).pressed == old(
                    self,
                ).pressed,
            },
    {
        match e {
            Event::PointerMoved(x, y) => {
                self.cursor = (Vec2 { x, y }).clamped();
            },
            Event::ButtonPressed => {
                self.pressed = true;
            },
            Event::ButtonReleased => {},
            Event::Resized(w, h) => {
                if 1 <= w && w <= 16384 && 1 <= h && h <= 16384 {
                    self.vp = Viewport::new(w, h);
                }
            },
            Event::CloseRequested => {
                self.running = false;
            },
        }
    }
}

/// The delta the next tick at `now` will use.
pub open spec fn tick_delta_spec(w: World, now: int) -> int {
    delta_fx_spec(w.clock.last_micros as int, now)
}

/// The click intensity after the next tick at `now`.
pub open spec fn tick_click_spec(w: World, now: int) -> int {
    click_step_spec(w.click as int, w.pressed, tick_delta_spec(w, now))
}

/// The character position after the next tick at `now`: moved toward the
/// cursor carried into world space, using the fresh click intensity.
pub open spec fn tick_character_spec(w: World, now: int) -> Vec2 {
    character_step_spec(
        w.character_spec(),
        (Vec2 { x: (w.cursor.x - w.offset.x) as i64, y: (w.cursor.y - w.offset.y) as i64 }).clamped_spec(),
        tick_click_spec(w, now),
        tick_delta_spec(w, now),
    )
}

/// The world offset after the next tick at `now`: the camera step, fed the
/// freshly moved character.
pub open spec fn tick_offset_spec(w: World, now: int) -> Vec2 {
    camera_step_spec(w.offset, w.cursor, tick_character_spec(w, now), w.vp, tick_delta_spec(w, now))
}

/// The read-only snapshot the pools fan out over during the tick at `now`.
pub open spec fn tick_ctx_spec(w: World, now: int) -> FrameCtx {
    FrameCtx {
        delta: tick_delta_spec(w, now) as i64,
        click: tick_click_spec(w, now) as i64,
        cursor: w.cursor,
        character: tick_character_spec(w, now),
        offset: tick_offset_spec(w, now),
        vp: w.vp,
    }
}

impl World {
    /// One logic tick, in order: advance the clock, decay or reset the
    /// click intensity (consuming the press edge), move the character, pan
    /// the camera, then update both pools under the frozen snapshot.
    pub fn tick(&mut self, now_micros: u64, rng: &mut rand::rngs::ThreadRng)
        requires
            old(self).valid(),
        ensures
            final(self).valid(),
            final(self).cfg == old(self).cfg,
            final(self).vp == old(self).vp,
            final(self).cursor == old(self).cursor,
            final(self).running == old(self).running,
            final(self).pressed == false,
            final(self).clock.last_micros == now_micros,
            tick_delta_spec(*old(self), now_micros as int) > 0 ==> final(self).clock.avg_fps
                == crate::clock::ema_spec(
                old(self).clock.avg_fps as int,
                tick_delta_spec(*old(self), now_micros as int),
            ),
            tick_delta_spec(*old(self), now_micros as int) == 0 ==> final(self).clock.avg_fps
                == old(self).clock.avg_fps,
            final(self).scene.entities == old(self).scene.entities,
            final(self).scene.nodes.len() == old(self).scene.nodes.len(),
            final(self).click == tick_click_spec(*old(self), now_micros as int),
            final(self).character_spec() == tick_character_spec(*old(self), now_micros as int),
            final(self).offset == tick_offset_spec(*old(self), now_micros as int),
            final(self).particles.len() == old(self).particles.len(),
            final(self).dust.len() == old(self).dust.len(),
            forall|i: int|
                0 <= i < final(self).particles.len() ==> #[trigger] particle_stepped(
                    old(self).particles[i],
                    final(self).particles[i],
                    tick_ctx_spec(*old(self), now_micros as int),
                    old(self).cfg.particle_decay as int,
                    old(self).cfg.particle_speed as int,
                ),
            forall|i: int|
                0 <= i < final(self).dust.len() ==> #[trigger] grain_stepped(
                    old(self).dust[i],
                    final(self).dust[i],
                    tick_ctx_spec(*old(self), now_micros as int),
                    old(self).cfg.dust_decay as int,
                    old(self).cfg.dust_speed as int,
                ),
            forall|i: int|
                0 <= i < final(self).particles.len() ==> (#[trigger] final(self).particles[i]).life == life_step_spec(
                    old(self).particles[i].life as int,
                    old(self).cfg.particle_decay as int,
                    tick_delta_spec(*old(self), now_micros as int),
                ),
            forall|i: int|
                0 <= i < final(self).dust.len() ==> (#[trigger] final(self).dust[i]).life
                    == life_step_spec(
                    old(self).dust[i].life as int,
                    old(self).cfg.dust_decay as int,
                    tick_delta_spec(*old(self), now_micros as int),
                ),
            forall|i: int|
                0 <= i < final(self).particles.len() && old(self).particles[i].life > fx_mul_spec(
                    old(self).cfg.particle_decay as int,
                    tick_delta_spec(*old(self), now_micros as int),
                ) ==> (#[trigger] final(self).particles[i]).scale == old(self).particles[i].scale
                    && final(self).particles[i].opacity == old(self).particles[i].opacity,
            forall|i: int|
                0 <= i < final(self).particles.len() && old(self).particles[i].life <= fx_mul_spec(
                    old(self).cfg.particle_decay as int,
                    tick_delta_spec(*old(self), now_micros as int),
                ) ==> 0 <= (#[trigger] final(self).particles[i]).scale <= FX_ONE
                    && crate::sim::OPACITY_LO <= final(self).particles[i].opacity
                    <= crate::sim::OPACITY_HI,
            forall|i: int|
                0 <= i < final(self).dust.len() && old(self).dust[i].life > fx_mul_spec(
                    old(self).cfg.dust_decay as int,
                    tick_delta_spec(*old(self), now_micros as int),
                ) ==> (#[trigger] final(self).dust[i]).opacity == old(self).dust[i].opacity,
            forall|i: int|
                0 <= i < final(self).dust.len() && old(self).dust[i].life <= fx_mul_spec(
                    old(self).cfg.dust_decay as int,
                    tick_delta_spec(*old(self), now_micros as int),
                ) ==> crate::sim::OPACITY_LO <= (#[trigger] final(self).dust[i]).opacity
                    <= crate::sim::OPACITY_HI,
    {
        let delta: i64 = self.clock.tick(now_micros);
        let pressed: bool = self.pressed;
        self.pressed = false;
        self.click = click_step(self.click, pressed, delta);
        let target: Vec2 = (Vec2 {
            x: self.cursor.x - self.offset.x,
            y: self.cursor.y - self.offset.y,
        }).clamped();
        let current: Vec2 = self.scene.root_pos(0);
        let moved: Vec2 = character_step(current, target, self.click, delta);
        self.scene.set_root_pos(0, moved);
        self.offset = camera_step(self.offset, self.cursor, moved, self.vp, delta);
        let ctx: FrameCtx = FrameCtx {
            delta,
            click: self.click,
            cursor: self.cursor,
            character: moved,
            offset: self.offset,
            vp: self.vp,
        };
        particles_tick(&mut self.particles, &ctx, self.cfg.particle_decay, self.cfg.particle_speed, rng);
        dust_tick(&mut self.dust, &ctx, self.cfg.dust_decay, self.cfg.dust_speed, rng);
    }

    /// Rasterize the frame in draw order: background, dust (filled),
    /// particles (stroked), scene-graph nodes (stroked), the cursor glyph
    /// (stroked, floored at one pixel). The resulting buffer is exactly the
    /// layered composition `render_spec`.
    pub fn render(&self, surface: &mut Surface)
        requires
            self.valid(),
            old(surface).valid(),
        ensures
            final(surface).valid(),
            final(surface).w == old(surface).w,
            final(surface).h == old(surface).h,
            final(surface).px@ == render_spec(*self, old(surface).px@, old(surface).w as int),
    {
        let vsize: i64 = self.vp.vsize();
        surface.clear(BACKGROUND_PX);
        let ghost sw = surface.w;
        let ghost sh = surface.h;
        let ghost base = surface.px@;
        let nd: usize = self.dust.len();
        let mut i: usize = 0;
        proof {
            assert(self.dust@.take(0int) =~= Seq::<Grain>::empty());
        }
        while i < nd
            invariant
                self.valid(),
                surface.valid(),
                surface.w == sw,
                surface.h == sh,
                nd == self.dust.len(),
                i <= nd,
                FX_ONE <= vsize <= 0x4000_0000,
                vsize == self.vp.vsize_spec(),
                surface.px@ == dust_layer_spec(
                    base,
                    sw as int,
                    vsize as int,
                    self.offset,
                    self.dust@.take(i as int),
                ),
            decreases nd - i,
        {
            let g: Grain = self.dust[i];
            let px: i64 = fx_to_px(g.pos.x + self.offset.x);
            let py: i64 = fx_to_px(g.pos.y + self.offset.y);
            let rad: i64 = element_radius_px(vsize, RADIUS_DUST, g.life, FX_ONE);
            let color: u32 = shade(alpha_byte(g.opacity, g.life), HIGHLIGHT_RGB);
            surface.fill_circle(px, py, rad, color);
            proof {
                assert(self.dust@.take(i as int + 1).drop_last() =~= self.dust@.take(i as int));
                assert(self.dust@.take(i as int + 1).last() == g);
                assert(surface.px@ == dust_layer_spec(
                    base,
                    sw as int,
                    vsize as int,
                    self.offset,
                    self.dust@.take(i as int + 1),
                ));
            }
            i += 1;
        }
        let ghost s1 = dust_layer_spec(base, sw as int, vsize as int, self.offset, self.dust@);
        proof {
            assert(self.dust@.take(nd as int) =~= self.dust@);
        }
        let np: usize = self.particles.len();
        let mut k: usize = 0;
        proof {
            assert(self.particles@.take(0int) =~= Seq::<Particle>::empty());
        }
        while k < np
            invariant
                self.valid(),
                surface.valid(),
                surface.w == sw,
                surface.h == sh,
                np == self.particles.len(),
                k <= np,
                FX_ONE <= vsize <= 0x4000_0000,
                vsize == self.vp.vsize_spec(),
                surface.px@ == particles_layer_spec(
                    s1,
                    sw as int,
                    vsize as int,
                    self.offset,
                    self.particles@.take(k as int),
                ),
            decreases np - k,
        {
            let p: Particle = self.particles[k];
            let px: i64 = fx_to_px(p.pos.x + self.offset.x);
            let py: i64 = fx_to_px(p.pos.y + self.offset.y);
            let rad: i64 = element_radius_px(vsize, RADIUS_PARTICLE, p.life, p.scale);
            let color: u32 = shade(alpha_byte(p.opacity, p.life), HIGHLIGHT_RGB);
            surface.stroke_circle(px, py, rad, color);
            proof {
                assert(self.particles@.take(k as int + 1).drop_last() =~= self.particles@.take(
                    k as int,
                ));
                assert(self.particles@.take(k as int + 1).last() == p);
                assert(surface.px@ == particles_layer_spec(
                    s1,
                    sw as int,
                    vsize as int,
                    self.offset,
                    self.particles@.take(k as int + 1),
                ));
            }
            k += 1;
        }
        let ghost s2 = particles_layer_spec(
            s1,
            sw as int,
            vsize as int,
            self.offset,
            self.particles@,
        );
        proof {
            assert(self.particles@.take(np as int) =~= self.particles@);
        }
        let ne: usize = self.scene.entities.len();
        let mut e: usize = 0;
        while e < ne
            invariant
                self.valid(),
                surface.valid(),
                surface.w == sw,
                surface.h == sh,
                ne == self.scene.entities.len(),
                e <= ne,
                FX_ONE <= vsize <= 0x4000_0000,
                vsize == self.vp.vsize_spec(),
                surface.px@ == scene_layer_spec(
                    s2,
                    sw as int,
                    vsize as int,
                    self.offset,
                    self.scene,
                    e as int,
                ),
            decreases ne - e,
        {
            let list: Vec<Vec2> = self.scene.draw_list(e);
            proof {
                assert forall|q: int| 0 <= q < list@.len() implies list@[q] == entity_draw_seq(
                    self.scene,
                    e as int,
                )[q] by {
                    if q > 0 {
                        assert(list@[(q - 1) + 1] == self.scene.nodes[self.scene.nodes[self.scene.entities[e as int].root as int].children[q - 1] as int].pos);
                    }
                }
                assert(list@ =~= entity_draw_seq(self.scene, e as int));
                assert(list@.take(0int) =~= Seq::<Vec2>::empty());
            }
            let ghost sl = surface.px@;
            let nl: usize = list.len();
            let mut m: usize = 0;
            while m < nl
                invariant
                    self.valid(),
                    surface.valid(),
                    surface.w == sw,
                    surface.h == sh,
                    nl == list.len(),
                    m <= nl,
                    e < ne,
                    ne == self.scene.entities.len(),
                    FX_ONE <= vsize <= 0x4000_0000,
                    vsize == self.vp.vsize_spec(),
                    list@ == entity_draw_seq(self.scene, e as int),
                    sl == scene_layer_spec(
                        s2,
                        sw as int,
                        vsize as int,
                        self.offset,
                        self.scene,
                        e as int,
                    ),
                    surface.px@ == nodes_layer_spec(
                        sl,
                        sw as int,
                        vsize as int,
                        self.offset,
                        list@.take(m as int),
                    ),
                    forall|q: int| 0 <= q < list.len() ==> (#[trigger] list[q]).in_range(),
                decreases nl - m,
            {
                let pos: Vec2 = list[m];
                let px: i64 = fx_to_px(pos.x + self.offset.x);
                let py: i64 = fx_to_px(pos.y + self.offset.y);
                let rad: i64 = node_radius_px(vsize);
                surface.stroke_circle(px, py, rad, shade(NODE_ALPHA, HIGHLIGHT_RGB));
                proof {
                    assert(list@.take(m as int + 1).drop_last() =~= list@.take(m as int));
                    assert(list@.take(m as int + 1).last() == pos);
                    assert(surface.px@ == nodes_layer_spec(
                        sl,
                        sw as int,
                        vsize as int,
                        self.offset,
                        list@.take(m as int + 1),
                    ));
                }
                m += 1;
            }
            proof {
                assert(list@.take(nl as int) =~= list@);
                assert(surface.px@ == scene_layer_spec(
                    s2,
                    sw as int,
                    vsize as int,
                    self.offset,
                    self.scene,
                    e as int + 1,
                ));
            }
            e += 1;
        }
        let cr: i64 = cursor_radius_px(vsize, self.click);
        let cpx: i64 = fx_to_px(self.cursor.x);
        let cpy: i64 = fx_to_px(self.cursor.y);
        surface.stroke_circle(cpx, cpy, cr, shade(255, HIGHLIGHT_RGB));
        proof {
            assert(surface.px@ == render_spec(*self, old(surface).px@, old(surface).w as int));
        }
    }
}

/// The screen-space pixel coordinate of one world-space axis value.
pub open spec fn screen_px_spec(world_c: int, offset_c: int) -> int {
    (world_c + offset_c) / (FX_ONE as int)
}

/// The buffer after the given dust grains are drawn, filled, in pool order.
pub open spec fn dust_layer_spec(
    s: Seq<u32>,
    sw: int,
    vsize: int,
    offset: Vec2,
    pool: Seq<Grain>,
) -> Seq<u32>
    decreases pool.len(),
{
    if pool.len() == 0 {
        s
    } else {
        let g = pool.last();
        disc_painted(
            dust_layer_spec(s, sw, vsize, offset, pool.drop_last()),
            sw,
            screen_px_spec(g.pos.x as int, offset.x as int),
            screen_px_spec(g.pos.y as int, offset.y as int),
            element_radius_px_spec(vsize, RADIUS_DUST as int, g.life as int, FX_ONE as int),
            shade_spec(alpha_byte_spec(g.opacity as int, g.life as int), HIGHLIGHT_RGB),
        )
    }
}

/// The buffer after the given particles are drawn, stroked, in pool order.
pub open spec fn particles_layer_spec(
    s: Seq<u32>,
    sw: int,
    vsize: int,
    offset: Vec2,
    pool: Seq<Particle>,
) -> Seq<u32>
    decreases pool.len(),
{
    if pool.len() == 0 {
        s
    } else {
        let p = pool.last();
        ring_painted(
            particles_layer_spec(s, sw, vsize, offset, pool.drop_last()),
            sw,
            screen_px_spec(p.pos.x as int, offset.x as int),
            screen_px_spec(p.pos.y as int, offset.y as int),
            element_radius_px_spec(vsize, RADIUS_PARTICLE as int, p.life as int, p.scale as int),
            shade_spec(alpha_byte_spec(p.opacity as int, p.life as int), HIGHLIGHT_RGB),
        )
    }
}

/// The positions one entity draws: its root node, then the root's direct
/// children.
pub open spec fn entity_draw_seq(scene: Scene, e: int) -> Seq<Vec2> {
    Seq::new(
        (1 + scene.nodes[scene.entities[e].root as int].children.len()) as nat,
        |q: int|
            if q == 0 {
                scene.nodes[scene.entities[e].root as int].pos
            } else {
                scene.nodes[scene.nodes[scene.entities[e].root as int].children[q - 1] as int].pos
            },
    )
}

/// The buffer after the given node positions are stroked, in order.
pub open spec fn nodes_layer_spec(
    s: Seq<u32>,
    sw: int,
    vsize: int,
    offset: Vec2,
    list: Seq<Vec2>,
) -> Seq<u32>
    decreases list.len(),
{
    if list.len() == 0 {
        s
    } else {
        let pos = list.last();
        ring_painted(
            nodes_layer_spec(s, sw, vsize, offset, list.drop_last()),
            sw,
            screen_px_spec(pos.x as int, offset.x as int),
            screen_px_spec(pos.y as int, offset.y as int),
            node_radius_px_spec(vsize),
            shade_spec(NODE_ALPHA as int, HIGHLIGHT_RGB),
        )
    }
}

/// The buffer after the first `count` entities have drawn their nodes.
pub open spec fn scene_layer_spec(
    s: Seq<u32>,
    sw: int,
    vsize: int,
    offset: Vec2,
    scene: Scene,
    count: int,
) -> Seq<u32>
    decreases count,
{
    if count <= 0 {
        s
    } else {
        nodes_layer_spec(
            scene_layer_spec(s, sw, vsize, offset, scene, count - 1),
            sw,
            vsize,
            offset,
            entity_draw_seq(scene, count - 1),
        )
    }
}

/// One whole frame: the background, then dust, particles, the scene graph
/// and the cursor glyph, layered in draw order over a buffer of the same
/// size as `s`.
pub open spec fn render_spec(w: World, s: Seq<u32>, sw: int) -> Seq<u32> {
    let base = Seq::new(s.len(), |j: int| BACKGROUND_PX);
    let vsize = w.vp.vsize_spec();
    let after_dust = dust_layer_spec(base, sw, vsize, w.offset, w.dust@);
    let after_particles = particles_layer_spec(after_dust, sw, vsize, w.offset, w.particles@);
    let after_scene = scene_layer_spec(
        after_particles,
        sw,
        vsize,
        w.offset,
        w.scene,
        w.scene.entities.len() as int,
    );
    ring_painted(
        after_scene,
        sw,
        (w.cursor.x as int) / (FX_ONE as int),
        (w.cursor.y as int) / (FX_ONE as int),
        cursor_radius_px_spec(vsize, w.click as int),
        shade_spec(255, HIGHLIGHT_RGB),
    )
}

/// The rendered radius of a pool element, in whole pixels: the viewport
/// size times the pool coefficient, grown as life decays, scaled by the
/// element's own scale.
pub open spec fn element_radius_px_spec(vsize: int, coeff: int, life: int, scale: int) -> int {
    fx_mul_spec(fx_mul_spec(fx_mul_spec(vsize, coeff), (FX_ONE as int) - life), scale) / (
    FX_ONE as int)
}

/// Compute a pool element's rendered radius.
pub fn element_radius_px(vsize: i64, coeff: i64, life: i64, scale: i64) -> (r: i64)
    requires
        FX_ONE <= vsize <= 0x4000_0000,
        0 <= coeff <= FX_ONE,
        0 <= life <= FX_ONE,
        0 <= scale <= FX_ONE,
    ensures
        r == element_radius_px_spec(vsize as int, coeff as int, life as int, scale as int),
        0 <= r <= 0x10_0000,
{
    proof {
        assert(0 <= (vsize as int) * (coeff as int) <= 0x4000_0000_0000_0000) by (nonlinear_arith)
            requires
                0 <= vsize as int <= 0x4000_0000,
                0 <= coeff as int <= 65536,
        ;
    }
    let c1: i64 = fx_mul(vsize, coeff);
    proof {
        assert(0 <= (c1 as int) * ((FX_ONE - life) as int) <= 0x4000_0000_0000_0000)
            by (nonlinear_arith)
            requires
                0 <= c1 as int <= 0x4000_0000,
                0 <= (FX_ONE - life) as int <= 65536,
        ;
    }
    let c2: i64 = fx_mul(c1, FX_ONE - life);
    proof {
        assert(0 <= (c2 as int) * (scale as int) <= 0x4000_0000_0000_0000) by (nonlinear_arith)
            requires
                0 <= c2 as int <= 0x4000_0000,
                0 <= scale as int <= 65536,
        ;
    }
    let c3: i64 = fx_mul(c2, scale);
    proof {
        lemma_div_is_ordered(c3 as int, 0x4000_0000, 65536);
    }
    div_floor(c3, FX_ONE)
}

/// The rendered radius of a scene-graph node: five percent of the smaller
/// viewport dimension.
pub open spec fn node_radius_px_spec(vsize: int) -> int {
    fx_mul_spec(vsize, RADIUS_NODE as int) / (FX_ONE as int)
}

/// Compute the node radius.
pub fn node_radius_px(vsize: i64) -> (r: i64)
    requires
        FX_ONE <= vsize <= 0x4000_0000,
    ensures
        r == node_radius_px_spec(vsize as int),
        0 <= r <= 0x10_0000,
{
    proof {
        assert(0 <= (vsize as int) * (RADIUS_NODE as int) <= 0x4000_0000_0000_0000)
            by (nonlinear_arith)
            requires
                0 <= vsize as int <= 0x4000_0000,
        ;
    }
    let c1: i64 = fx_mul(vsize, RADIUS_NODE);
    proof {
        lemma_div_is_ordered(c1 as int, 0x4000_0000, 65536);
    }
    div_floor(c1, FX_ONE)
}

/// The cursor glyph radius: five percent of the smaller viewport
/// dimension, shrunk by up to 25 pixels as the click intensity rises, and
/// floored at one pixel.
pub open spec fn cursor_radius_px_spec(vsize: int, click: int) -> int {
    let raw = (fx_mul_spec(vsize, RADIUS_NODE as int) - fx_mul_spec(click, CURSOR_SHRINK as int))
        / (FX_ONE as int);
    if raw >= 1 {
        raw
    } else {
        1
    }
}

/// Compute the cursor glyph radius.
pub fn cursor_radius_px(vsize: i64, click: i64) -> (r: i64)
    requires
        FX_ONE <= vsize <= 0x4000_0000,
        0 <= click <= FX_ONE,
    ensures
        r == cursor_radius_px_spec(vsize as int, click as int),
        1 <= r <= 0x10_0000,
{
    proof {
        assert(0 <= (vsize as int) * (RADIUS_NODE as int) <= 0x4000_0000_0000_0000)
            by (nonlinear_arith)
            requires
                0 <= vsize as int <= 0x4000_0000,
        ;
    }
    let c1: i64 = fx_mul(vsize, RADIUS_NODE);
    proof {
        assert((click as int) * (CURSOR_SHRINK as int) <= 0x4000_0000_0000_0000)
            by (nonlinear_arith)
            requires
                0 <= click as int <= 65536,
        ;
        assert(0 <= (click as int) * (CURSOR_SHRINK as int)) by (nonlinear_arith)
            requires
                0 <= click,
        ;
        lemma_div_is_ordered(0, (click as int) * (CURSOR_SHRINK as int), 65536);
        lemma_div_is_ordered(
            (click as int) * (CURSOR_SHRINK as int),
            65536 * (CURSOR_SHRINK as int),
            65536,
        );
        vstd::arithmetic::div_mod::lemma_div_multiples_vanish(CURSOR_SHRINK as int, 65536);
    }
    let c2: i64 = fx_mul(click, CURSOR_SHRINK);
    proof {
        lemma_div_is_ordered(-0x4000_0000, (c1 - c2) as int, 65536);
        lemma_div_is_ordered((c1 - c2) as int, 0x4000_0000, 65536);
    }
    let raw: i64 = div_floor(c1 - c2, FX_ONE);
    fx_max(raw, 1)
}

} // verus!
