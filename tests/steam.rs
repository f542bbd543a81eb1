use ascii_renderer::coffee::{Coffee, CUP};
use ascii_renderer::renderer::Renderer;
use ascii_renderer::steam_renderer::{
    ConstructionError, SteamParticle, SteamRenderer, SteamRendererOptions, FLIP_INTERVAL_CHOICES,
    GRID_LIMIT,
};
use ascii_renderer::vector2::{cell_index, Vector2, UNITS_PER_CELL};

fn options(width: usize, height: usize, offset: usize) -> SteamRendererOptions {
    SteamRendererOptions {
        width,
        height,
        offset,
        rise_speed: 100,
        wind: 0,
        max_speed: 500,
        max_lifespan: 60,
    }
}

fn renderer(width: usize, height: usize, offset: usize) -> SteamRenderer {
    SteamRenderer::new(options(width, height, offset)).unwrap()
}

fn particle(x: i64, y: i64, left: bool) -> SteamParticle {
    SteamParticle {
        position: Vector2::new(x, y),
        velocity: Vector2::new(0, 0),
        left,
        frames_between_flips: 0,
        lifespan: 10,
        frames: 0,
        frames_since_last_flip: 0,
    }
}

#[test]
fn vector_new_keeps_coordinates() {
    let v = Vector2::new(3, -4);
    assert_eq!((v.x, v.y), (3, -4));
}

#[test]
fn vector_floor_ceil_round() {
    let v = Vector2::new(1500, -1500);
    let f = v.floor();
    assert_eq!((f.x, f.y), (1000, -2000));
    let c = v.ceil();
    assert_eq!((c.x, c.y), (2000, -1000));
    let r = v.round();
    assert_eq!((r.x, r.y), (2000, -2000));
    let w = Vector2::new(1499, -1499).round();
    assert_eq!((w.x, w.y), (1000, -1000));
    let e = Vector2::new(3000, -3000);
    assert_eq!((e.floor().x, e.ceil().y, e.round().x), (3000, -3000, 3000));
}

#[test]
fn cell_index_is_floor_division() {
    assert_eq!(cell_index(0), 0);
    assert_eq!(cell_index(999), 0);
    assert_eq!(cell_index(1000), 1);
    assert_eq!(cell_index(-1), -1);
    assert_eq!(cell_index(-1000), -1);
    assert_eq!(cell_index(-1001), -2);
}

#[test]
fn construction_errors() {
    assert_eq!(SteamRenderer::new(options(0, 3, 0)).err(), Some(ConstructionError::EmptyGrid));
    assert_eq!(SteamRenderer::new(options(5, 0, 0)).err(), Some(ConstructionError::EmptyGrid));
    assert_eq!(
        SteamRenderer::new(options(GRID_LIMIT + 1, 3, 0)).err(),
        Some(ConstructionError::GridTooLarge)
    );
    assert_eq!(
        SteamRenderer::new(options(5, 3, GRID_LIMIT + 1)).err(),
        Some(ConstructionError::GridTooLarge)
    );
    assert_eq!(
        SteamRenderer::new(options(2, usize::MAX, 0)).err(),
        Some(ConstructionError::GridTooLarge)
    );
    assert!(SteamRenderer::new(options(5000, 3, 5000)).is_ok());
    let mut o = options(5, 3, 0);
    o.max_speed = -1;
    assert_eq!(SteamRenderer::new(o).err(), Some(ConstructionError::SpeedOutOfRange));
    let mut o = options(5, 3, 0);
    o.wind = 2_000_000;
    assert_eq!(SteamRenderer::new(o).err(), Some(ConstructionError::SpeedOutOfRange));
    assert!(SteamRenderer::new(options(5, 3, 0)).is_ok());
}

#[test]
fn empty_renderer_draws_blank_frame() {
    let mut r = renderer(5, 3, 2);
    assert_eq!(r.generate_frame(), "       \n       \n       \n");
    assert!(r.live_particles().is_empty());
}

#[test]
fn end_to_end_single_particle() {
    let mut r = renderer(5, 3, 0);
    let id = r.spawn(2 * UNITS_PER_CELL, 0, Vector2::new(0, UNITS_PER_CELL), false, 0, 2);
    assert_eq!(id, 0);

    assert_eq!(r.generate_frame(), "     \n     \n  |  \n");
    r.update_simulation();
    let ps = r.live_particles();
    assert_eq!(ps.len(), 1);
    assert_eq!((ps[0].1.position.x, ps[0].1.position.y), (2000, 1000));
    assert_eq!(ps[0].1.frames, 1);

    // The particle flipped to lean left on its first step.
    assert_eq!(r.generate_frame(), "     \n  {  \n     \n");
    r.update_simulation();
    assert!(r.live_particles().is_empty());

    assert_eq!(r.generate_frame(), "     \n     \n     \n");
}

#[test]
fn frame_shape_is_height_lines_of_width_plus_offset() {
    let mut r = renderer(25, 8, 10);
    for step in 0..40 {
        if step % 2 == 0 {
            r.spawn_particle();
        }
        let frame = r.generate_frame();
        let lines: Vec<&str> = frame.split_terminator('\n').collect();
        assert_eq!(lines.len(), 8);
        assert!(frame.ends_with('\n'));
        for line in lines {
            assert_eq!(line.chars().count(), 35);
        }
        r.update_simulation();
    }
}

#[test]
fn culled_particles_are_not_drawn() {
    let mut r = renderer(5, 3, 1);
    let still = Vector2::new(0, 0);
    r.spawn(-2 * UNITS_PER_CELL, 0, still, true, 0, 10);
    r.spawn(6 * UNITS_PER_CELL, 0, still, true, 0, 10);
    r.spawn(0, 3 * UNITS_PER_CELL, still, true, 0, 10);
    r.spawn(0, -1, still, true, 0, 10);
    assert_eq!(r.generate_frame(), "      \n      \n      \n");
    // One cell left of the grid is culled too: the offset margin stays blank.
    r.spawn(-UNITS_PER_CELL, 0, still, true, 0, 10);
    r.spawn(-1, 1000, still, true, 0, 10);
    assert_eq!(r.generate_frame(), "      \n      \n      \n");
    // Column 0 of the grid is drawn just right of the margin.
    r.spawn(0, 0, still, true, 0, 10);
    assert_eq!(r.generate_frame(), "      \n      \n |    \n");
}

#[test]
fn glyph_rule() {
    assert_eq!(particle(0, 0, true).to_ascii(), '|');
    assert_eq!(particle(0, 999, false).to_ascii(), '|');
    assert_eq!(particle(0, 1000, true).to_ascii(), '{');
    assert_eq!(particle(0, 2500, false).to_ascii(), '}');
    assert_eq!(particle(0, -1, true).to_ascii(), '{');
}

#[test]
fn later_particle_wins_its_cell() {
    let mut r = renderer(3, 2, 0);
    let still = Vector2::new(0, 0);
    r.spawn(1000, 1000, still, true, 0, 10);
    r.spawn(1500, 1200, still, false, 0, 10);
    assert_eq!(r.generate_frame(), " } \n   \n");
}

#[test]
fn flip_cadence() {
    let mut p = particle(0, 0, false);
    p.frames_between_flips = 2;
    p.lifespan = 100;
    let mut flips = Vec::new();
    for step in 1..=9 {
        let before = p.left;
        assert!(!p.update());
        if p.left != before {
            flips.push(step);
        }
    }
    assert_eq!(flips, vec![3, 6, 9]);
    assert_eq!(p.frames, 9);
    assert_eq!(p.frames_since_last_flip, 0);
}

#[test]
fn flip_every_step_with_zero_interval() {
    let mut p = particle(0, 0, true);
    assert!(!p.update());
    assert!(!p.left);
    assert!(!p.update());
    assert!(p.left);
}

#[test]
fn flip_toggles_orientation() {
    let mut p = particle(0, 0, true);
    p.flip();
    assert!(!p.left);
    p.flip();
    assert!(p.left);
}

#[test]
fn update_reports_expiry_without_flipping() {
    let mut p = particle(0, 0, true);
    p.lifespan = 1;
    assert!(p.update());
    assert!(p.left);
    assert_eq!(p.frames, 1);
}

#[test]
fn expiry_after_exactly_lifespan_steps() {
    let mut r = renderer(5, 3, 0);
    r.spawn(0, 0, Vector2::new(0, 0), false, 1, 3);
    for age in 1..3 {
        r.update_simulation();
        let ps = r.live_particles();
        assert_eq!(ps.len(), 1);
        assert_eq!(ps[0].1.frames, age);
    }
    r.update_simulation();
    assert!(r.live_particles().is_empty());
}

#[test]
fn zero_lifespan_particle_leaves_after_one_step() {
    let mut r = renderer(5, 3, 0);
    r.spawn(0, 0, Vector2::new(0, 0), false, 1, 0);
    assert_eq!(r.live_particles().len(), 1);
    r.update_simulation();
    assert!(r.live_particles().is_empty());
}

#[test]
fn ids_are_never_reused() {
    let mut r = renderer(5, 3, 0);
    let still = Vector2::new(0, 0);
    assert_eq!(r.spawn(0, 0, still, false, 0, 1), 0);
    assert_eq!(r.spawn(0, 0, still, false, 0, 5), 1);
    r.update_simulation();
    let ids: Vec<u32> = r.live_particles().iter().map(|e| e.0).collect();
    assert_eq!(ids, vec![1]);
    assert_eq!(r.spawn(0, 0, still, false, 0, 5), 2);
    r.update_simulation();
    r.update_simulation();
    assert_eq!(r.spawn(0, 0, still, false, 0, 5), 3);
    let ids: Vec<u32> = r.live_particles().iter().map(|e| e.0).collect();
    assert_eq!(ids, vec![1, 2, 3]);
    assert!(r.can_spawn());
}

#[test]
fn wind_is_clamped_to_max_speed() {
    let mut o = options(5, 3, 0);
    o.wind = 300;
    o.max_speed = 500;
    let mut r = SteamRenderer::new(o).unwrap();
    r.spawn(0, 0, Vector2::new(0, 100), false, 0, 10);
    r.update_simulation();
    let p = r.live_particles()[0].1;
    assert_eq!((p.velocity.x, p.velocity.y), (300, 100));
    assert_eq!((p.position.x, p.position.y), (300, 100));
    r.update_simulation();
    let p = r.live_particles()[0].1;
    assert_eq!(p.velocity.x, 500);
    assert_eq!((p.position.x, p.position.y), (800, 200));
}

#[test]
fn negative_wind_is_clamped_too() {
    let mut o = options(5, 3, 0);
    o.wind = -400;
    o.max_speed = 250;
    let mut r = SteamRenderer::new(o).unwrap();
    r.spawn(1000, 0, Vector2::new(0, 0), false, 0, 10);
    r.update_simulation();
    let p = r.live_particles()[0].1;
    assert_eq!((p.velocity.x, p.position.x), (-250, 750));
}

#[test]
fn spawn_lifespan_follows_distance_to_centre() {
    let mut r = renderer(25, 8, 10);
    r.spawn_particle_at(500, true, 2);
    r.spawn_particle_at(0, false, 1);
    r.spawn_particle_at(100, false, 0);
    r.spawn_particle_at(1000, false, 3);
    let ps = r.live_particles();
    let lifespans: Vec<u32> = ps.iter().map(|e| e.1.lifespan).collect();
    assert_eq!(lifespans, vec![60, 30, 36, 30]);
    let p = ps[0].1;
    assert_eq!((p.position.x, p.position.y), (12500, 0));
    assert_eq!((p.velocity.x, p.velocity.y), (0, 100));
    assert!(p.left);
    assert_eq!((p.frames_between_flips, p.frames, p.frames_since_last_flip), (2, 0, 0));
    assert_eq!(ps[2].1.position.x, 2500);
}

#[test]
fn spawn_lifespan_rounds_halves_up() {
    let mut o = options(4, 2, 0);
    o.max_lifespan = 3;
    let mut r = SteamRenderer::new(o).unwrap();
    r.spawn_particle_at(0, false, 0);
    assert_eq!(r.live_particles()[0].1.lifespan, 2);
}

#[test]
fn random_spawn_stays_in_range() {
    let mut r = renderer(25, 8, 10);
    for _ in 0..200 {
        r.spawn_particle();
    }
    let ps = r.live_particles();
    assert_eq!(ps.len(), 200);
    for (i, (id, p)) in ps.iter().enumerate() {
        assert_eq!(*id as usize, i);
        assert!(p.position.x >= 0 && p.position.x < 25 * UNITS_PER_CELL);
        assert_eq!(p.position.y, 0);
        assert_eq!((p.velocity.x, p.velocity.y), (0, 100));
        assert!(p.frames_between_flips < FLIP_INTERVAL_CHOICES);
        assert!(p.lifespan >= 30 && p.lifespan <= 60);
    }
    assert!(ps.iter().any(|e| e.1.position.x != ps[0].1.position.x));
}

#[test]
fn coffee_draws_cup_below_steam() {
    let mut c = Coffee::new(options(5, 2, 0)).unwrap();
    let frame = c.generate_frame();
    assert_eq!(frame, format!("     \n     \n{}", CUP));
    assert!(CUP.contains("_________________________"));
    c.spawn_particle();
    c.update_simulation();
    let frame = c.generate_frame();
    assert!(frame.ends_with(CUP));
    assert!(c.can_spawn());
}

#[test]
fn coffee_refuses_empty_grid() {
    assert_eq!(Coffee::new(options(0, 2, 0)).err(), Some(ConstructionError::EmptyGrid));
}

#[test]
fn remove_deletes_only_the_given_id() {
    let mut r = renderer(5, 3, 0);
    let still = Vector2::new(0, 0);
    r.spawn(0, 0, still, false, 0, 5);
    r.spawn(1000, 0, still, false, 0, 5);
    r.spawn(2000, 0, still, false, 0, 5);
    assert!(r.remove(1));
    let ids: Vec<u32> = r.live_particles().iter().map(|e| e.0).collect();
    assert_eq!(ids, vec![0, 2]);
    assert!(!r.remove(1));
    assert!(!r.remove(7));
    assert_eq!(r.live_particles().len(), 2);
    assert_eq!(r.generate_frame(), "     \n     \n| |  \n");
    // Removal does not free an id for reuse.
    assert_eq!(r.spawn(0, 0, still, false, 0, 5), 3);
}
