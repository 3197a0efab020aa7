//! The reaction pipeline's evaluation and application.

use dotworld::dot::Dot;
use dotworld::material::{to_dna, BaseMaterialParams, State};
use dotworld::reaction::{apply_results, evaluate_event, BlendResult, ReactionEvent};

fn params_of(state: State) -> BaseMaterialParams {
    BaseMaterialParams {
        state,
        ..Default::default()
    }
}

fn make_dot(x: i64, y: i64, p: BaseMaterialParams, seed: u64) -> Dot {
    let dna = to_dna(&p, seed);
    Dot {
        id: seed,
        name: dotworld::naming::generate_name(&dna),
        x,
        y,
        vx: 0,
        vy: 0,
        material: p,
        material_dna: dna,
        reaction_count: 0,
        last_reaction_at: 0,
        last_decay_check_at: 0,
        last_heat_exchange_at: 0,
        selected: false,
        glowing_since: None,
    }
}

#[test]
fn same_seed_pairs_do_not_react() {
    let ev = ReactionEvent {
        index_a: 0,
        dna_a: to_dna(&params_of(State::Solid), 5),
        index_b: 1,
        dna_b: to_dna(&params_of(State::Gas), 5),
    };
    assert!(evaluate_event(&ev).is_empty());
}

#[test]
fn close_energies_change_both_to_one_new_dna() {
    // Two solids: energy gap zero, a mutual reaction.  Both particles end
    // up holding the same new DNA, whose seed differs from both parents.
    let mut dots = vec![
        make_dot(10_000_000, 10_000_000, params_of(State::Solid), 111),
        make_dot(12_000_000, 10_000_000, params_of(State::Solid), 222),
    ];
    let ev = ReactionEvent {
        index_a: 0,
        dna_a: dots[0].material_dna.clone(),
        index_b: 1,
        dna_b: dots[1].material_dna.clone(),
    };
    let rs = evaluate_event(&ev);
    assert_eq!(rs.len(), 2);
    apply_results(&mut dots, &rs);
    assert_eq!(dots.len(), 2);
    assert_eq!(dots[0].material_dna.seed, dots[1].material_dna.seed);
    assert_ne!(dots[0].material_dna.seed, 111);
    assert_ne!(dots[0].material_dna.seed, 222);
    assert_eq!(dots[0].material_dna.genes, dots[1].material_dna.genes);
}

#[test]
fn middle_gap_changes_only_the_lower_energy_particle() {
    let ev = ReactionEvent {
        index_a: 4,
        dna_a: to_dna(&params_of(State::Liquid), 1),
        index_b: 9,
        dna_b: to_dna(&params_of(State::Solid), 2),
    };
    let rs = evaluate_event(&ev);
    assert_eq!(rs.len(), 1);
    match &rs[0] {
        BlendResult::Change { index, .. } => assert_eq!(*index, 9),
        _ => panic!("expected a change"),
    }
}

#[test]
fn wide_gap_changes_the_higher_and_vanishes_the_lower() {
    let ev = ReactionEvent {
        index_a: 3,
        dna_a: to_dna(&params_of(State::Solid), 1),
        index_b: 7,
        dna_b: to_dna(&params_of(State::Gas), 2),
    };
    let rs = evaluate_event(&ev);
    assert_eq!(rs.len(), 2);
    match &rs[0] {
        BlendResult::Change { index, .. } => assert_eq!(*index, 7),
        _ => panic!("expected a change"),
    }
    match &rs[1] {
        BlendResult::Vanish { index } => assert_eq!(*index, 3),
        _ => panic!("expected a vanish"),
    }
}

#[test]
fn vanish_removes_the_named_particle() {
    let mut dots = vec![
        make_dot(10_000_000, 10_000_000, params_of(State::Solid), 1),
        make_dot(20_000_000, 10_000_000, params_of(State::Solid), 2),
        make_dot(30_000_000, 10_000_000, params_of(State::Solid), 3),
    ];
    let rs = vec![BlendResult::Vanish { index: 1 }];
    apply_results(&mut dots, &rs);
    assert_eq!(dots.len(), 2);
    assert_eq!(dots[0].id, 1);
    assert_eq!(dots[1].id, 3);
}

#[test]
fn duplicate_and_stale_vanishes_are_harmless() {
    let mut dots = vec![
        make_dot(10_000_000, 10_000_000, params_of(State::Solid), 1),
        make_dot(20_000_000, 10_000_000, params_of(State::Solid), 2),
    ];
    let rs = vec![
        BlendResult::Vanish { index: 1 },
        BlendResult::Vanish { index: 1 },
        BlendResult::Vanish { index: 99 },
    ];
    apply_results(&mut dots, &rs);
    assert_eq!(dots.len(), 1);
    assert_eq!(dots[0].id, 1);
}

#[test]
fn change_rewrites_material_and_name() {
    let mut dots = vec![
        make_dot(10_000_000, 10_000_000, params_of(State::Solid), 41),
        make_dot(12_000_000, 10_000_000, params_of(State::Solid), 42),
    ];
    let new_dna = dots[0].material_dna.blend(&dots[1].material_dna, 500_000);
    let rs = vec![BlendResult::Change {
        index: 0,
        new_dna: new_dna.clone(),
    }];
    apply_results(&mut dots, &rs);
    assert_eq!(dots[0].material_dna.seed, new_dna.seed);
    // The material was re-decoded from the new DNA.
    assert_eq!(dots[0].material.density, new_dna.genes[1]);
    // The display name follows the DNA.
    let expected = dotworld::naming::generate_name(&new_dna);
    assert_eq!(dots[0].name, expected);
}
