use circles::camera::camera_step;
use circles::clock::Clock;
use circles::ctx::{click_step, Config, FrameCtx, Viewport};
use circles::driver::{cursor_radius_px, element_radius_px, Event, World, RADIUS_DUST, RADIUS_PARTICLE};
use circles::fixed::{div_floor, falloff16, fx_clamp, fx_lerp, fx_mul, FX_ONE};
use circles::geom::{fx_dist, isqrt64, Vec2};
use circles::raster::{alpha_byte, circle_fits, shade, Surface};
use circles::rng::{draw_in, new_rng};
use circles::scene::{character_step, Scene};
use circles::sim::{
    dust_tick, particle_step, particles_tick, seed_dust, seed_particles, Draws, Grain, Particle,
    OPACITY_FIRST_HI, OPACITY_HI, OPACITY_LO,
};

fn test_viewport() -> Viewport {
    Viewport::new(800, 600)
}

fn quiet_ctx(vp: Viewport, delta: i64) -> FrameCtx {
    FrameCtx {
        delta,
        click: 0,
        cursor: Vec2::new(0, 0),
        character: Vec2::new(0, 0),
        offset: Vec2::new(0, 0),
        vp,
    }
}

fn no_draws() -> Draws {
    Draws { jx: 0, jy: 0, rx: 0, ry: 0, scale: 30000, opacity: 100 }
}

#[test]
fn fixed_point_basics() {
    assert_eq!(div_floor(7, 2), 3);
    assert_eq!(div_floor(-7, 2), -4);
    assert_eq!(div_floor(-65536, 65536), -1);
    assert_eq!(fx_mul(32768, 32768), 16384);
    assert_eq!(fx_lerp(0, 65536, 32768), 32768);
    assert_eq!(fx_lerp(100, 100, 40000), 100);
    assert_eq!(fx_clamp(99, -10, 10), 10);
    assert_eq!(fx_clamp(-99, -10, 10), -10);
}

#[test]
fn falloff_of_one_is_one() {
    assert_eq!(falloff16(FX_ONE), FX_ONE);
}

#[test]
fn falloff_of_two_is_two_to_the_sixteenth() {
    assert_eq!(falloff16(2 * FX_ONE), 65536 * 65536);
}

#[test]
fn integer_square_roots() {
    assert_eq!(isqrt64(0), 0);
    assert_eq!(isqrt64(15), 3);
    assert_eq!(isqrt64(16), 4);
    assert_eq!(isqrt64(u64::MAX), 0xFFFF_FFFF);
}

#[test]
fn euclidean_distance() {
    let a = Vec2::new(0, 0);
    let b = Vec2::new(3, 4);
    assert_eq!(fx_dist(a, b), 5);
    assert_eq!(fx_dist(b, a), 5);
    assert_eq!(fx_dist(a, a), 0);
}

// The respawn threshold is exact: one tick above it decays, at it respawns.
#[test]
fn respawn_threshold_is_exact() {
    let vp = test_viewport();
    let ctx = quiet_ctx(vp, FX_ONE);
    let decay = 8192; // 0.125 * 1.0 second
    let above = Particle { pos: Vec2::new(0, 0), life: 8193, scale: 1, opacity: 50 };
    let stepped = particle_step(&above, no_draws(), &ctx, decay, 983040);
    assert_eq!(stepped.life, 1);
    assert_eq!(stepped.scale, 1);
    assert_eq!(stepped.opacity, 50);
    let at = Particle { pos: Vec2::new(0, 0), life: 8192, scale: 1, opacity: 50 };
    let reborn = particle_step(&at, no_draws(), &ctx, decay, 983040);
    assert_eq!(reborn.life, FX_ONE);
}

// A particle with one thousandth of life left, ticked a whole second,
// respawns with full life and fresh visual parameters in range.
#[test]
fn near_dead_particle_respawns_with_full_life() {
    let vp = test_viewport();
    let ctx = quiet_ctx(vp, FX_ONE);
    let p = Particle { pos: Vec2::new(123, 456), life: 66, scale: 60000, opacity: 200 };
    let mut rng = new_rng();
    let mut pool = vec![p];
    particles_tick(&mut pool, &ctx, 8192, 983040, &mut rng);
    assert_eq!(pool[0].life, FX_ONE);
    assert!(0 <= pool[0].scale && pool[0].scale <= FX_ONE);
    assert!(OPACITY_LO <= pool[0].opacity && pool[0].opacity <= OPACITY_HI);
}

// Life stays inside [0, 1] across many randomized ticks of both pools.
#[test]
fn life_stays_in_unit_interval() {
    let vp = test_viewport();
    let ctx = quiet_ctx(vp, 1092);
    let mut rng = new_rng();
    let mut particles = seed_particles(64, &ctx, &mut rng);
    let mut dust = seed_dust(64, &ctx, &mut rng);
    for _ in 0..100 {
        for p in &particles {
            assert!(0 <= p.life && p.life <= FX_ONE);
        }
        for g in &dust {
            assert!(0 <= g.life && g.life <= FX_ONE);
        }
        particles_tick(&mut particles, &ctx, 8192, 983040, &mut rng);
        dust_tick(&mut dust, &ctx, 8192, 327680, &mut rng);
        for p in &particles {
            assert!(0 <= p.life && p.life <= FX_ONE);
        }
        for g in &dust {
            assert!(0 <= g.life && g.life <= FX_ONE);
        }
    }
}

// The very first dust population uses the narrower opacity range.
#[test]
fn initial_dust_opacity_is_narrow() {
    let vp = test_viewport();
    let ctx = quiet_ctx(vp, 0);
    let mut rng = new_rng();
    let dust = seed_dust(256, &ctx, &mut rng);
    for g in &dust {
        assert!(OPACITY_LO <= g.opacity && g.opacity <= OPACITY_FIRST_HI);
    }
}

// A press edge resets the click intensity to exactly one, also twice in a
// row; without presses it never increases.
#[test]
fn click_press_resets_to_one_and_decays() {
    assert_eq!(click_step(40000, true, 1092), FX_ONE);
    assert_eq!(click_step(FX_ONE, true, 1092), FX_ONE);
    let mut click = FX_ONE;
    for _ in 0..50 {
        let next = click_step(click, false, 1092);
        assert!(next <= click);
        assert!(0 <= next);
        click = next;
    }
    assert!(click < FX_ONE / 2);
}

// At equilibrium (cursor and character mirrored around the centre, offset
// zero) the camera update is a no-op, even with a nonzero pan fraction.
#[test]
fn camera_is_stable_at_equilibrium() {
    let vp = test_viewport();
    let center_x = 800 * FX_ONE / 2;
    let center_y = 600 * FX_ONE / 2;
    let offset = Vec2::new(0, 0);
    let cursor = Vec2::new(center_x + 2 * FX_ONE, center_y);
    let character = Vec2::new(center_x - 2 * FX_ONE, center_y);
    let moved = camera_step(offset, cursor, character, vp, 1092);
    assert_eq!(moved, Vec2::new(0, 0));
}

#[test]
fn camera_pans_toward_offcenter_cursor() {
    let vp = test_viewport();
    let offset = Vec2::new(0, 0);
    let cursor = Vec2::new(790 * FX_ONE, 10 * FX_ONE);
    let character = Vec2::new(0, 0);
    let moved = camera_step(offset, cursor, character, vp, FX_ONE);
    assert_ne!(moved, offset);
}

// The bounds test is false exactly for circles that cannot touch the
// viewport: probed at the four corners, one step inside and outside.
#[test]
fn circle_bounds_test_at_corners() {
    let r = 10;
    assert!(!circle_fits(800, 600, -r, -r, r));
    assert!(circle_fits(800, 600, -r + 1, -r + 1, r));
    assert!(!circle_fits(800, 600, 800 + r, -r, r));
    assert!(circle_fits(800, 600, 800 + r - 1, -r + 1, r));
    assert!(!circle_fits(800, 600, -r, 600 + r, r));
    assert!(circle_fits(800, 600, -r + 1, 600 + r - 1, r));
    assert!(!circle_fits(800, 600, 800 + r, 600 + r, r));
    assert!(circle_fits(800, 600, 800 + r - 1, 600 + r - 1, r));
    assert!(circle_fits(800, 600, 400, 300, 1));
}

#[test]
fn filled_circle_paints_strict_interior() {
    let mut s = Surface::new(8, 8, 0);
    s.fill_circle(4, 4, 2, 7);
    assert_eq!(s.px[4 * 8 + 4], 7);
    assert_eq!(s.px[4 * 8 + 3], 7);
    assert_eq!(s.px[3 * 8 + 3], 7);
    assert_eq!(s.px[4 * 8 + 2], 0);
    assert_eq!(s.px[2 * 8 + 4], 0);
    assert_eq!(s.px[0], 0);
}

#[test]
fn stroked_circle_paints_ring_only() {
    let mut s = Surface::new(8, 8, 0);
    s.stroke_circle(4, 4, 2, 9);
    assert_eq!(s.px[4 * 8 + 4], 0);
    assert_eq!(s.px[4 * 8 + 3], 9);
    assert_eq!(s.px[3 * 8 + 3], 9);
    assert_eq!(s.px[4 * 8 + 2], 0);
}

#[test]
fn offscreen_circle_is_skipped() {
    let mut s = Surface::new(8, 8, 3);
    s.fill_circle(-10, -10, 2, 7);
    s.stroke_circle(100, 100, 4, 9);
    for j in 0..s.px.len() {
        assert_eq!(s.px[j], 3);
    }
}

#[test]
fn degenerate_radius_is_skipped() {
    let mut s = Surface::new(8, 8, 3);
    s.fill_circle(4, 4, 0, 7);
    s.fill_circle(4, 4, -5, 7);
    for j in 0..s.px.len() {
        assert_eq!(s.px[j], 3);
    }
}

#[test]
fn presentation_swaps_red_and_blue_and_pins_alpha() {
    let s = Surface { w: 2, h: 1, px: vec![0x0011_2233, 0x0000_00FF] };
    let out = s.to_present();
    assert_eq!(out.len(), 2);
    assert_eq!(out[0], 0xFF33_2211);
    assert_eq!(out[1], 0xFFFF_0000);
}

#[test]
fn clear_repaints_every_pixel() {
    let mut s = Surface::new(4, 3, 0);
    s.fill_circle(2, 1, 2, 5);
    s.clear(11);
    for j in 0..s.px.len() {
        assert_eq!(s.px[j], 11);
    }
}

#[test]
fn alpha_scales_with_life() {
    assert_eq!(alpha_byte(255, FX_ONE), 255);
    assert_eq!(alpha_byte(204, FX_ONE / 2), 102);
    assert_eq!(alpha_byte(100, 0), 0);
    assert_eq!(shade(255, 0xB2D8E5), 0xFFB2_D8E5);
}

#[test]
fn rendered_radii() {
    let vsize = 600 * FX_ONE;
    // 600 * 0.025 * (1 - 0) * 1.0, floored to pixels.
    assert_eq!(element_radius_px(vsize, RADIUS_PARTICLE, 0, FX_ONE), 14);
    // A full-life element has zero rendered size.
    assert_eq!(element_radius_px(vsize, RADIUS_DUST, FX_ONE, FX_ONE), 0);
    // The cursor glyph shrinks with the click intensity but never below 1.
    let relaxed = cursor_radius_px(vsize, 0);
    let clicked = cursor_radius_px(vsize, FX_ONE);
    assert_eq!(relaxed, 30);
    assert_eq!(clicked, 5);
    assert_eq!(cursor_radius_px(FX_ONE, FX_ONE), 1);
}

#[test]
fn clock_derives_delta_and_average() {
    let mut c = Clock::start(0);
    let delta = c.tick(16666);
    assert_eq!(delta, 1092);
    assert_eq!(c.avg_fps, 131104);
    // Time standing still gives a zero delta and leaves the average alone.
    let none = c.tick(16666);
    assert_eq!(none, 0);
    assert_eq!(c.avg_fps, 131104);
    // Anything one second or longer is capped.
    let capped = c.tick(20_000_000);
    assert_eq!(capped, FX_ONE);
}

#[test]
fn scene_holds_one_character() {
    let s = Scene::character(Vec2::new(5, 6));
    assert_eq!(s.nodes.len(), 1);
    assert_eq!(s.entities.len(), 1);
    assert_eq!(s.root_pos(0), Vec2::new(5, 6));
    let list = s.draw_list(0);
    assert_eq!(list.len(), 1);
    assert_eq!(list[0], Vec2::new(5, 6));
}

#[test]
fn moving_the_root_keeps_the_children() {
    let mut s = Scene::character(Vec2::new(0, 0));
    s.set_root_pos(0, Vec2::new(7, 8));
    assert_eq!(s.root_pos(0), Vec2::new(7, 8));
    assert_eq!(s.nodes[0].children.len(), 0);
}

#[test]
fn character_tracks_target() {
    let current = Vec2::new(0, 0);
    let target = Vec2::new(65536, 0);
    // With click 0 and a full-second delta, t = min(0.1, 1) = 0.1.
    let moved = character_step(current, target, 0, FX_ONE);
    assert_eq!(moved.x, 6554);
    assert_eq!(moved.y, 0);
    // The step never overshoots.
    let again = character_step(target, target, FX_ONE, FX_ONE);
    assert_eq!(again, target);
}

fn small_config() -> Config {
    Config {
        particle_count: 8,
        dust_count: 8,
        particle_decay: 8192,
        dust_decay: 8192,
        particle_speed: 983040,
        dust_speed: 327680,
    }
}

// With the cursor parked at the exact centre and no clicks, three hundred
// sixty-per-second ticks leave the world offset within a thousandth of a
// pixel of the origin and the click intensity at exactly zero.
#[test]
fn centered_cursor_settles_the_camera() {
    let mut rng = new_rng();
    let mut w = World::new(small_config(), 800, 600, 0, &mut rng);
    w.apply_event(Event::PointerMoved(400 * FX_ONE, 300 * FX_ONE));
    let mut now: u64 = 0;
    for _ in 0..300 {
        now += 16666;
        w.tick(now, &mut rng);
    }
    assert!(w.offset.x.abs() <= 65 && w.offset.y.abs() <= 65);
    assert_eq!(w.click, 0);
}

// Resizing to another viewport and back restores every derived constant.
#[test]
fn resize_round_trip_leaves_no_drift() {
    let mut rng = new_rng();
    let mut w = World::new(small_config(), 800, 600, 0, &mut rng);
    let vsize0 = w.vp.vsize();
    let diag0 = w.vp.diag_fx();
    let center0 = w.vp.center();
    w.apply_event(Event::Resized(1024, 768));
    assert_eq!(w.vp, Viewport::new(1024, 768));
    w.apply_event(Event::Resized(800, 600));
    assert_eq!(w.vp, Viewport::new(800, 600));
    assert_eq!(w.vp.vsize(), vsize0);
    assert_eq!(w.vp.diag_fx(), diag0);
    assert_eq!(w.vp.center(), center0);
    let mut s = Surface::new(800, 600, 0);
    s.resize(1024, 768, 0);
    assert_eq!((s.w, s.h), (1024, 768));
    s.resize(800, 600, 0);
    assert_eq!((s.w, s.h), (800, 600));
    assert_eq!(s.px.len(), 800 * 600);
}

#[test]
fn zero_area_resize_is_ignored() {
    let mut rng = new_rng();
    let mut w = World::new(small_config(), 800, 600, 0, &mut rng);
    w.apply_event(Event::Resized(0, 600));
    assert_eq!(w.vp, Viewport::new(800, 600));
    w.apply_event(Event::Resized(640, 0));
    assert_eq!(w.vp, Viewport::new(800, 600));
    let mut s = Surface::new(800, 600, 0);
    s.resize(0, 0, 0);
    assert_eq!((s.w, s.h), (800, 600));
}

#[test]
fn close_request_stops_the_loop() {
    let mut rng = new_rng();
    let mut w = World::new(small_config(), 800, 600, 0, &mut rng);
    assert!(w.running);
    w.apply_event(Event::CloseRequested);
    assert!(!w.running);
}

#[test]
fn pointer_moves_are_clamped() {
    let mut rng = new_rng();
    let mut w = World::new(small_config(), 800, 600, 0, &mut rng);
    w.apply_event(Event::PointerMoved(i64::MAX / 2, i64::MIN / 2));
    assert_eq!(w.cursor, Vec2::new(0x4000_0000, -0x4000_0000));
}

#[test]
fn pressing_during_a_tick_resets_click() {
    let mut rng = new_rng();
    let mut w = World::new(small_config(), 800, 600, 0, &mut rng);
    w.apply_event(Event::ButtonPressed);
    w.apply_event(Event::ButtonPressed);
    w.tick(16666, &mut rng);
    assert_eq!(w.click, FX_ONE);
    w.apply_event(Event::ButtonReleased);
    w.tick(33332, &mut rng);
    assert!(w.click < FX_ONE);
}

#[test]
fn render_keeps_the_surface_well_formed() {
    let mut rng = new_rng();
    let mut w = World::new(small_config(), 64, 48, 0, &mut rng);
    w.apply_event(Event::PointerMoved(32 * FX_ONE, 24 * FX_ONE));
    w.tick(16666, &mut rng);
    let mut s = Surface::new(64, 48, 0);
    w.render(&mut s);
    assert_eq!((s.w, s.h), (64, 48));
    assert_eq!(s.px.len(), 64 * 48);
    // The background was repainted before anything was drawn over it.
    let out = s.to_present();
    assert_eq!(out.len(), 64 * 48);
    for p in &out {
        assert_eq!(p >> 24, 0xFF);
    }
}

// With empty pools the frame is fully deterministic: background everywhere,
// the character's node ring at the origin, the cursor ring at the centre,
// drawn in that order.
#[test]
fn rendered_frame_has_expected_pixels() {
    let cfg = Config {
        particle_count: 0,
        dust_count: 0,
        particle_decay: 8192,
        dust_decay: 8192,
        particle_speed: 983040,
        dust_speed: 327680,
    };
    let mut rng = new_rng();
    let mut w = World::new(cfg, 64, 48, 0, &mut rng);
    w.apply_event(Event::PointerMoved(32 * FX_ONE, 24 * FX_ONE));
    let mut s = Surface::new(64, 48, 0);
    w.render(&mut s);
    // An untouched pixel holds the background.
    assert_eq!(s.px[40 * 64 + 60], 0xFF11_1119);
    // The cursor ring: radius floor(48 * 0.05) = 2, fully opaque highlight.
    assert_eq!(s.px[24 * 64 + 33], 0xFFB2_D8E5);
    assert_eq!(s.px[24 * 64 + 32], 0xFF11_1119);
    // The character's node ring at the origin, translucent highlight.
    assert_eq!(s.px[0 * 64 + 1], 0x80B2_D8E5);
}

// The uniform draw honours its bounds; a one-point range pins the value.
#[test]
fn draws_respect_their_ranges() {
    let mut rng = new_rng();
    assert_eq!(draw_in(&mut rng, 7, 7), 7);
    for _ in 0..200 {
        let v = draw_in(&mut rng, -3, 12);
        assert!(-3 <= v && v <= 12);
    }
}

// Seeded pools start with all invariants in place.
#[test]
fn seeded_pools_are_valid() {
    let vp = test_viewport();
    let ctx = quiet_ctx(vp, 0);
    let mut rng = new_rng();
    let particles = seed_particles(128, &ctx, &mut rng);
    assert_eq!(particles.len(), 128);
    for p in &particles {
        assert!(0 <= p.life && p.life <= FX_ONE);
        assert!(0 <= p.scale && p.scale <= FX_ONE);
        assert!(OPACITY_LO <= p.opacity && p.opacity <= OPACITY_HI);
        assert!(-0x4000_0000 <= p.pos.x && p.pos.x <= 0x4000_0000);
    }
    let dust: Vec<Grain> = seed_dust(128, &ctx, &mut rng);
    assert_eq!(dust.len(), 128);
    for g in &dust {
        assert!(0 <= g.life && g.life <= FX_ONE);
    }
}

#[test]
fn default_config_matches_the_reference() {
    let cfg = Config::default();
    assert_eq!(cfg.particle_count, 512);
    assert_eq!(cfg.dust_count, 512);
    assert_eq!(cfg.particle_decay, 8192);
    assert_eq!(cfg.dust_decay, 8192);
    assert_eq!(cfg.particle_speed, 983040);
    assert_eq!(cfg.dust_speed, 327680);
}
