//! The simulation facade: placement, selection, ticking, reactions and
//! names.

use dotworld::material::to_dna;
use dotworld::naming::generate_name;
use dotworld::reaction::evaluate_event;
use dotworld::seed_gen::{generate_seed, seed_from_digest};
use dotworld::sim::Simulation;
use dotworld::SCALE;

#[test]
fn placing_a_dot_applies_the_brush_and_clamps() {
    let mut sim = Simulation::new(Default::default(), 42);
    sim.add_dot_if_not_exists(10_000_000, 20_000_000);
    assert_eq!(sim.dots.len(), 1);
    assert_eq!(sim.dots[0].x, 10_000_000);
    assert_eq!(sim.dots[0].y, 20_000_000);
    assert_eq!(sim.dots[0].material, sim.brush_material);
    assert!(sim.is_updating);
    // A placement outside the arena is clamped onto it.
    sim.add_dot_if_not_exists(-5, 999_000_000_000);
    assert_eq!(sim.dots[1].x, 0);
    assert_eq!(sim.dots[1].y, 480_000_000);
    // Identities are distinct and monotone.
    assert!(sim.dots[0].id < sim.dots[1].id);
}

#[test]
fn find_dot_at_picks_the_topmost_hit() {
    let mut sim = Simulation::new(Default::default(), 42);
    sim.add_dot_if_not_exists(100_000_000, 100_000_000);
    sim.add_dot_if_not_exists(100_500_000, 100_000_000);
    sim.add_dot_if_not_exists(300_000_000, 300_000_000);
    assert_eq!(sim.find_dot_at(100_200_000, 100_000_000), Some(1));
    assert_eq!(sim.find_dot_at(300_000_000, 300_000_000), Some(2));
    assert_eq!(sim.find_dot_at(50_000_000, 50_000_000), None);
}

#[test]
fn clear_dots_empties_and_sleeps() {
    let mut sim = Simulation::new(Default::default(), 42);
    sim.add_dot_if_not_exists(100_000_000, 100_000_000);
    sim.clear_dots();
    assert!(sim.dots.is_empty());
    assert!(!sim.is_updating);
}

#[test]
fn ticking_advances_the_clock_and_keeps_particles_sound() {
    let mut sim = Simulation::new(Default::default(), 42);
    for k in 0..20i64 {
        sim.add_dot_if_not_exists(100_000_000 + k * 3_000_000, 100_000_000);
    }
    for _ in 0..10 {
        sim.update_physics(16_000);
    }
    assert_eq!(sim.now_micros, 160_000);
    for d in &sim.dots {
        assert!(0 <= d.x && d.x <= 640_000_000);
        assert!(0 <= d.y && d.y <= 480_000_000);
    }
}

#[test]
fn colliding_pair_reacts_into_shared_dna_end_to_end() {
    // Two overlapping particles with distinct seeds and equal phases: the
    // detected event evaluates to a mutual change, and after application
    // both hold the same fresh seed.
    let mut sim = Simulation::new(Default::default(), 42);
    sim.add_dot_if_not_exists(100_000_000, 100_000_000);
    sim.add_dot_if_not_exists(102_000_000, 100_000_000);
    let seed_a = sim.dots[0].material_dna.seed;
    let seed_b = sim.dots[1].material_dna.seed;
    assert_ne!(seed_a, seed_b);
    sim.update_physics(1_000_000);
    let events = sim.take_pending_events();
    assert!(!events.is_empty(), "overlapping pair produced no event");
    let mut results = Vec::new();
    for ev in &events {
        results.extend(evaluate_event(ev));
    }
    sim.apply_blend_results(&results);
    assert_eq!(sim.dots.len(), 2);
    let new_seed = sim.dots[0].material_dna.seed;
    assert_eq!(sim.dots[1].material_dna.seed, new_seed);
    assert_ne!(new_seed, seed_a);
    assert_ne!(new_seed, seed_b);
}

#[test]
fn randomize_brush_keeps_it_well_formed() {
    let mut sim = Simulation::new(Default::default(), 42);
    sim.randomize_brush_material();
    let b = sim.brush_material;
    assert!(0 <= b.density && b.density <= SCALE);
    assert!(0 <= b.viscosity && b.viscosity <= SCALE);
    assert!(0 <= b.color_hue && b.color_hue <= SCALE);
}

#[test]
fn names_follow_the_dna() {
    let dna = to_dna(&Default::default(), 987);
    let n1 = generate_name(&dna);
    let n2 = generate_name(&dna);
    assert!(!n1.is_empty());
    assert_eq!(n1, n2);
    // The first letter is capitalized.
    let first = n1.chars().next().unwrap();
    assert!(first.is_ascii_uppercase());
    let other = to_dna(&Default::default(), 988);
    let n3 = generate_name(&other);
    assert!(!n3.is_empty());
}

#[test]
fn seeds_read_digests_little_endian() {
    let mut d = vec![0u8; 32];
    d[0] = 1;
    assert_eq!(seed_from_digest(&d), 1);
    d[0] = 0;
    d[7] = 1;
    assert_eq!(seed_from_digest(&d), 1 << 56);
    // A clock-derived seed is available; two immediate draws may coincide.
    let _fresh = generate_seed();
}

#[test]
fn snapshot_mirrors_the_particles() {
    let mut sim = Simulation::new(Default::default(), 42);
    sim.add_dot_if_not_exists(100_000_000, 100_000_000);
    sim.add_dot_if_not_exists(200_000_000, 50_000_000);
    let frame = sim.snapshot();
    assert_eq!(frame.len(), 2);
    assert_eq!(frame[0].x, sim.dots[0].x);
    assert_eq!(frame[1].y, sim.dots[1].y);
    assert_eq!(frame[0].state, sim.dots[0].material.state);
    assert_eq!(frame[0].temperature, sim.dots[0].material.temperature);
    let m = sim.dots[0].material;
    let rgb = dotworld::color::hsl_to_rgb(m.color_hue, m.color_saturation, m.color_luminance);
    assert_eq!((frame[0].red, frame[0].green, frame[0].blue), rgb);
}
