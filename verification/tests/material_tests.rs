//! Material model: codec round trips, blending, reaction classification.

use dotworld::material::{
    decide_reaction_type, from_dna, from_seed, to_dna, BaseMaterialParams, MaterialDNA,
    ReactionType, State,
};
use dotworld::SCALE;

fn sample_params() -> BaseMaterialParams {
    BaseMaterialParams {
        state: State::Liquid,
        density: 123_456,
        viscosity: 400_000,
        hardness: 999_999,
        elasticity: 0,
        cohesion: 250_000,
        temperature: -400_000,
        heat_conductivity: 700_000,
        heat_capacity_high: 650_000,
        heat_capacity_low: 350_000,
        entropy_bias: 10_000,
        volatility: 880_000,
        luminescence: 1_000_000,
        color_hue: 950_000,
        color_saturation: 310_000,
        color_luminance: 777_777,
    }
}

#[test]
fn dna_round_trip_recovers_params() {
    let p = sample_params();
    let d = to_dna(&p, 42);
    assert_eq!(d.seed, 42);
    let q = from_dna(&d);
    assert_eq!(q.state, p.state);
    assert_eq!(q.density, p.density);
    assert_eq!(q.viscosity, p.viscosity);
    assert_eq!(q.hardness, p.hardness);
    assert_eq!(q.elasticity, p.elasticity);
    assert_eq!(q.cohesion, p.cohesion);
    assert_eq!(q.temperature, p.temperature);
    assert_eq!(q.heat_conductivity, p.heat_conductivity);
    assert_eq!(q.heat_capacity_high, p.heat_capacity_high);
    assert_eq!(q.heat_capacity_low, p.heat_capacity_low);
    assert_eq!(q.entropy_bias, p.entropy_bias);
    assert_eq!(q.volatility, p.volatility);
    assert_eq!(q.luminescence, p.luminescence);
    assert_eq!(q.color_hue, p.color_hue);
    assert_eq!(q.color_saturation, p.color_saturation);
    assert_eq!(q.color_luminance, p.color_luminance);
}

#[test]
fn dna_round_trip_odd_temperature_within_tolerance() {
    let mut p = sample_params();
    p.temperature = -400_001;
    let q = from_dna(&to_dna(&p, 7));
    assert_eq!(q.state, p.state);
    assert!((q.temperature - p.temperature).abs() <= 1);
}

#[test]
fn dna_round_trip_all_states() {
    for (state, seed) in [
        (State::Solid, 1u64),
        (State::Liquid, 2u64),
        (State::Gas, 3u64),
    ] {
        let mut p = sample_params();
        p.state = state;
        assert_eq!(from_dna(&to_dna(&p, seed)).state, state);
    }
}

#[test]
fn blend_is_deterministic() {
    let a = to_dna(&sample_params(), 11);
    let mut pb = sample_params();
    pb.state = State::Solid;
    pb.density = 900_000;
    let b = to_dna(&pb, 22);
    let r1 = a.blend(&b, 500_000);
    let r2 = a.blend(&b, 500_000);
    assert_eq!(r1.seed, r2.seed);
    assert_eq!(r1.genes, r2.genes);
}

#[test]
fn blend_yields_fresh_seed_and_unit_genes() {
    let a = to_dna(&sample_params(), 11);
    let b = to_dna(&sample_params(), 22);
    let r = a.blend(&b, 300_000);
    assert_ne!(r.seed, 0);
    assert_eq!(r.genes.len(), 16);
    for g in &r.genes {
        assert!(0 <= *g && *g <= SCALE);
    }
}

#[test]
fn blend_hue_wraps_the_short_way() {
    // Hue 0.95 blended with hue 0.05 at ratio 0.5 must land near the 0/1
    // seam, not near 0.5.
    let mut pa = sample_params();
    pa.color_hue = 950_000;
    pa.entropy_bias = 0;
    let mut pb = sample_params();
    pb.color_hue = 50_000;
    pb.entropy_bias = 0;
    let a = to_dna(&pa, 5);
    let b = to_dna(&pb, 6);
    let r = a.blend(&b, 500_000);
    let hue = r.genes[13];
    assert!(
        hue >= 845_000 || hue <= 155_000,
        "hue {hue} landed the long way around"
    );
}

#[test]
fn blend_endpoints_keep_plain_genes() {
    let a = to_dna(&sample_params(), 31);
    let mut pb = sample_params();
    pb.density = 800_000;
    let b = to_dna(&pb, 32);
    // Ratio 0 keeps the first parent's plain genes.
    let r0 = a.blend(&b, 0);
    assert_eq!(r0.genes[1], a.genes[1]);
    // Ratio 1 takes the second parent's plain genes.
    let r1 = a.blend(&b, SCALE);
    assert_eq!(r1.genes[1], b.genes[1]);
}

#[test]
fn reaction_type_by_energy_gap() {
    assert_eq!(
        decide_reaction_type(State::Solid, State::Solid),
        ReactionType::Reaction
    );
    assert_eq!(
        decide_reaction_type(State::Liquid, State::Liquid),
        ReactionType::Reaction
    );
    assert_eq!(
        decide_reaction_type(State::Gas, State::Gas),
        ReactionType::Reaction
    );
    assert_eq!(
        decide_reaction_type(State::Solid, State::Liquid),
        ReactionType::CatalyticLowChanges
    );
    assert_eq!(
        decide_reaction_type(State::Liquid, State::Gas),
        ReactionType::CatalyticLowChanges
    );
    assert_eq!(
        decide_reaction_type(State::Solid, State::Gas),
        ReactionType::CatalyticHighChangesAndLowVanishes
    );
    assert_eq!(
        decide_reaction_type(State::Gas, State::Solid),
        ReactionType::CatalyticHighChangesAndLowVanishes
    );
}

#[test]
fn energy_levels_are_ordered() {
    assert_eq!(State::Solid.get_energy_level(), 200_000);
    assert_eq!(State::Liquid.get_energy_level(), 500_000);
    assert_eq!(State::Gas.get_energy_level(), 800_000);
}

#[test]
fn from_seed_is_reproducible_and_in_range() {
    let p1 = from_seed(987_654_321);
    let p2 = from_seed(987_654_321);
    assert_eq!(p1.density, p2.density);
    assert_eq!(p1.state, p2.state);
    assert_eq!(p1.color_hue, p2.color_hue);
    assert!(p1.density >= 0 && p1.density < SCALE);
    assert!(p1.temperature >= -SCALE && p1.temperature <= SCALE);
    assert!(p1.color_luminance >= 200_000 && p1.color_luminance <= SCALE);
    let p3 = from_seed(987_654_322);
    // A different seed gives a different material (overwhelmingly likely;
    // these two concrete seeds do differ).
    assert!(p1.density != p3.density || p1.color_hue != p3.color_hue);
}

#[test]
fn default_params_are_the_plain_grey_solid() {
    let p: BaseMaterialParams = Default::default();
    assert_eq!(p.state, State::Solid);
    assert_eq!(p.density, 500_000);
    assert_eq!(p.viscosity, 300_000);
    assert_eq!(p.hardness, 700_000);
    assert_eq!(p.elasticity, 200_000);
    assert_eq!(p.temperature, 0);
    assert_eq!(p.heat_capacity_high, 600_000);
}

#[test]
fn dna_clone_is_deep() {
    let d = to_dna(&sample_params(), 77);
    let c: MaterialDNA = d.clone();
    assert_eq!(c.seed, d.seed);
    assert_eq!(c.genes, d.genes);
}
