//! Broad phase, narrow phase and the per-particle update.

use dotworld::dot::Dot;
use dotworld::engine::{update_position, update_state, Config};
use dotworld::grid::Physics;
use dotworld::material::{to_dna, BaseMaterialParams, State};
use dotworld::reaction::ReactionEvent;
use dotworld::rng::rng_from_seed;
use dotworld::SCALE;

fn make_dot(x: i64, y: i64, p: BaseMaterialParams, seed: u64) -> Dot {
    let dna = to_dna(&p, seed);
    Dot {
        id: seed,
        name: dotworld::naming::generate_name(&dna),
        x,
        y,
        vx: 0,
        vy: 0,
        material: p,
        material_dna: dna,
        reaction_count: 0,
        last_reaction_at: 0,
        last_decay_check_at: 0,
        last_heat_exchange_at: 0,
        selected: false,
        glowing_since: None,
    }
}

fn solid() -> BaseMaterialParams {
    BaseMaterialParams {
        state: State::Solid,
        cohesion: 0,
        ..Default::default()
    }
}

#[test]
fn grid_pairs_are_ordered_and_unique() {
    // A clump of particles in neighboring cells.
    let mut dots = Vec::new();
    for k in 0..12i64 {
        dots.push(make_dot(
            10_000_000 + (k % 4) * 3_000_000,
            20_000_000 + (k / 4) * 3_000_000,
            solid(),
            k as u64,
        ));
    }
    let mut phys = Physics::new(2_000_000);
    phys.rebuild(&dots);
    let pairs = phys.candidate_pairs(&dots);
    for &(i, j) in &pairs {
        assert!(i < j && j < dots.len());
    }
    for a in 0..pairs.len() {
        for b in (a + 1)..pairs.len() {
            assert_ne!(pairs[a], pairs[b], "pair yielded twice");
        }
    }
}

#[test]
fn grid_pairs_cover_touching_dots_and_skip_far_ones() {
    let dots = vec![
        make_dot(10_000_000, 10_000_000, solid(), 1),
        make_dot(12_000_000, 10_000_000, solid(), 2),
        make_dot(600_000_000, 400_000_000, solid(), 3),
    ];
    let mut phys = Physics::new(2_000_000);
    phys.rebuild(&dots);
    let pairs = phys.candidate_pairs(&dots);
    assert!(pairs.contains(&(0, 1)), "adjacent pair missing");
    assert!(!pairs.contains(&(0, 2)));
    assert!(!pairs.contains(&(1, 2)));
}

#[test]
fn overlap_resolves_exactly_to_the_contact_distance() {
    // Two solids overlapping vertically with 2 * radius == 3 pixels: one
    // resolution step separates them to exactly 3 pixels about the
    // original midpoint.
    let mut cfg: Config = Default::default();
    cfg.dot_radius = 1_500_000;
    let mut dots = vec![
        make_dot(10_000_000, 10_000_000, solid(), 1),
        make_dot(10_000_000, 12_000_000, solid(), 2),
    ];
    let mut phys = Physics::new(cfg.dot_radius);
    let mut events: Vec<ReactionEvent> = Vec::new();
    phys.update_collision(&mut dots, 0, 1_000_000, &cfg, &mut events);
    assert_eq!(dots[0].x, 10_000_000);
    assert_eq!(dots[1].x, 10_000_000);
    assert_eq!(dots[0].y, 9_500_000);
    assert_eq!(dots[1].y, 12_500_000);
    assert_eq!(dots[1].y - dots[0].y, 3_000_000);
    assert_eq!(dots[0].y + dots[1].y, 10_000_000 + 12_000_000);
}

#[test]
fn equal_mass_elastic_collision_swaps_normal_speeds() {
    // Equal density and hardness, full elasticity, no cohesion, dt == 0 so
    // every time-proportional term vanishes: the along-normal speeds are
    // exchanged exactly.
    let mut p = solid();
    p.elasticity = SCALE;
    let mut dots = vec![
        make_dot(10_000_000, 10_000_000, p, 1),
        make_dot(10_000_000, 12_000_000, p, 2),
    ];
    dots[0].vy = 300_000;
    dots[1].vy = -200_000;
    let mut cfg: Config = Default::default();
    cfg.dot_radius = 1_500_000;
    let mut phys = Physics::new(cfg.dot_radius);
    let mut events: Vec<ReactionEvent> = Vec::new();
    phys.update_collision(&mut dots, 0, 1_000_000, &cfg, &mut events);
    assert_eq!(dots[0].vy, -200_000);
    assert_eq!(dots[1].vy, 300_000);
    assert_eq!(dots[0].vx, 0);
    assert_eq!(dots[1].vx, 0);
}

#[test]
fn overlapping_pair_emits_a_reaction_event() {
    let mut cfg: Config = Default::default();
    cfg.dot_radius = 1_500_000;
    let mut dots = vec![
        make_dot(10_000_000, 10_000_000, solid(), 1),
        make_dot(10_000_000, 12_000_000, solid(), 2),
    ];
    let mut phys = Physics::new(cfg.dot_radius);
    let mut events: Vec<ReactionEvent> = Vec::new();
    // Both cooldowns have elapsed: last reaction at 0, now far beyond the
    // initial wait.
    phys.update_collision(&mut dots, 0, 10_000_000, &cfg, &mut events);
    assert_eq!(events.len(), 1);
    assert_eq!(events[0].index_a, 0);
    assert_eq!(events[0].index_b, 1);
    assert_eq!(dots[0].reaction_count, 1);
    assert_eq!(dots[1].reaction_count, 1);
    assert_eq!(dots[0].last_reaction_at, 10_000_000);
}

#[test]
fn cooled_down_pair_does_not_react_again_at_once() {
    let mut cfg: Config = Default::default();
    cfg.dot_radius = 1_500_000;
    let mut dots = vec![
        make_dot(10_000_000, 10_000_000, solid(), 1),
        make_dot(10_000_000, 12_000_000, solid(), 2),
    ];
    let mut phys = Physics::new(cfg.dot_radius);
    let mut events: Vec<ReactionEvent> = Vec::new();
    phys.update_collision(&mut dots, 0, 10_000_000, &cfg, &mut events);
    // Re-overlap them and tick one microsecond later: the cooldown has not
    // elapsed, so no second event fires.
    dots[0].y = 10_000_000;
    dots[1].y = 12_000_000;
    phys.update_collision(&mut dots, 0, 10_000_001, &cfg, &mut events);
    assert_eq!(events.len(), 1);
}

#[test]
fn hot_solid_melts_to_liquid_below_its_new_threshold() {
    // A solid at temperature 2.0 with a low hot threshold and high
    // volatility: after enough ticks for the conductivity to cross one
    // unit it becomes liquid, with its temperature strictly below the
    // re-randomized threshold.
    let mut p = solid();
    p.temperature = 2_000_000;
    p.heat_capacity_high = 100_000;
    p.volatility = 900_000;
    p.entropy_bias = 0;
    let mut dots = vec![make_dot(100_000_000, 100_000_000, p, 9)];
    let cfg: Config = Default::default();
    let mut rng = rng_from_seed(1234);
    let mut states = vec![dots[0].material.state];
    for tick in 0..30u64 {
        update_state(&mut dots, 0, SCALE, tick * 1_000_000, &cfg, &mut rng);
        assert_eq!(dots.len(), 1);
        states.push(dots[0].material.state);
        if dots[0].material.state != State::Solid {
            break;
        }
    }
    assert_eq!(dots[0].material.state, State::Liquid);
    assert!(dots[0].material.temperature < dots[0].material.heat_capacity_high);
    // The ladder never skipped a phase on the way.
    for w in states.windows(2) {
        let a = match w[0] {
            State::Solid => 0,
            State::Liquid => 1,
            State::Gas => 2,
        };
        let b = match w[1] {
            State::Solid => 0,
            State::Liquid => 1,
            State::Gas => 2,
        };
        assert!((a as i32 - b as i32).abs() <= 1);
    }
}

#[test]
fn gas_scene_never_reports_all_stopped() {
    let mut p = solid();
    p.state = State::Gas;
    let mut dots = vec![make_dot(100_000_000, 478_000_000, p, 3)];
    let cfg: Config = Default::default();
    let mut rng = rng_from_seed(5);
    let stopped = update_position(&mut dots, 0, &cfg, &mut rng);
    assert!(!stopped);
}

#[test]
fn resting_solids_report_all_stopped() {
    let cfg: Config = Default::default();
    let floor = 480_000_000 - cfg.dot_radius;
    // Viscous enough that the floor adds no random spreading impulse.
    let mut p = solid();
    p.viscosity = 600_000;
    let mut dots = vec![
        make_dot(100_000_000, floor, p, 1),
        make_dot(200_000_000, floor, p, 2),
    ];
    let mut rng = rng_from_seed(5);
    let stopped = update_position(&mut dots, 0, &cfg, &mut rng);
    assert!(stopped);
}

#[test]
fn damping_shrinks_velocities() {
    let cfg: Config = Default::default();
    let mut dots = vec![make_dot(100_000_000, 100_000_000, solid(), 1)];
    dots[0].vx = 1_000_000;
    let mut rng = rng_from_seed(5);
    update_position(&mut dots, 0, &cfg, &mut rng);
    assert_eq!(dots[0].vx, 998_000);
}

#[test]
fn gravity_accelerates_condensed_particles() {
    let cfg: Config = Default::default();
    let mut dots = vec![make_dot(100_000_000, 100_000_000, solid(), 1)];
    let mut rng = rng_from_seed(5);
    update_state(&mut dots, cfg.gravity, SCALE, 1_000_000, &cfg, &mut rng);
    assert_eq!(dots[0].vy, 98_000_000);
}

#[test]
fn cohesion_pulls_separated_like_particles_together() {
    // Two resting solids of equal density, 7 px apart with radius 2: inside
    // the 8 px influence range and beyond the 3 px rest distance, so the
    // spring attracts: the left one gains rightward velocity and the right
    // one leftward, split evenly.
    let mut p = solid();
    p.cohesion = 1_000_000;
    p.elasticity = 0;
    let a = make_dot(100_000_000, 100_000_000, p, 1);
    let b = make_dot(107_000_000, 100_000_000, p, 2);
    let out =
        dotworld::collision::handle_detailed_collision(&a, &b, 1_000_000, 0, 0, 1_000_000, 2_000_000);
    assert_eq!(out.k.vx1, 20_000);
    assert_eq!(out.k.vx2, -20_000);
    assert_eq!(out.k.vy1, 0);
    assert_eq!(out.k.vy2, 0);
}

#[test]
fn cohesion_pushes_overlapping_like_particles_apart() {
    // The same pair closer than the rest distance is repelled toward it.
    let mut p = solid();
    p.cohesion = 1_000_000;
    p.elasticity = 0;
    let a = make_dot(100_000_000, 100_000_000, p, 1);
    let b = make_dot(102_000_000, 100_000_000, p, 2);
    let out =
        dotworld::collision::handle_detailed_collision(&a, &b, 1_000_000, 0, 0, 1_000_000, 2_000_000);
    assert!(out.k.vx1 < 0, "left particle must be pushed left, got {}", out.k.vx1);
    assert!(out.k.vx2 > 0);
}
