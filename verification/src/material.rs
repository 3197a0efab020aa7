//! The material model: phase states, reaction classification, the physical
//! property bag, and the genetic encoding ("DNA") that generates, blends and
//! reproduces materials.
//!
//! All normalized properties are fixed-point values in `[0, SCALE]`;
//! temperature is signed and may spike up to `2 * SCALE`.

use vstd::prelude::*;

verus! {

use crate::fixed::{
    SCALE, iabs, tdiv, smul, spec_clamp, fmul, clamp64, lemma_tdiv_exact, lemma_tdiv_bound,
    lemma_smul_bound, lemma_smul_frac_range,
};
use crate::rng::{word_stream, seed_words, spec_frac, spec_signed_in, word_frac, word_signed_in};
use vstd::arithmetic::div_mod::*;
use vstd::arithmetic::mul::*;

/// A particle's discrete phase.
#[derive(Clone, Copy, Debug, PartialEq, Eq, Structural)]
pub enum State {
    Solid,
    Liquid,
    Gas,
}

/// Fixed energy ranking of the phases, used only to order them for reaction
/// classification.
pub const ENERGY_SOLID: i64 = 200_000;

pub const ENERGY_LIQUID: i64 = 500_000;

pub const ENERGY_GAS: i64 = 800_000;

pub open spec fn spec_energy(s: State) -> int {
    match s {
        State::Solid => ENERGY_SOLID as int,
        State::Liquid => ENERGY_LIQUID as int,
        State::Gas => ENERGY_GAS as int,
    }
}

impl State {
    /// The phase's representative energy level.
    pub fn get_energy_level(&self) -> (r: i64)
        ensures
            r == spec_energy(*self),
    {
        match self {
            State::Solid => ENERGY_SOLID,
            State::Liquid => ENERGY_LIQUID,
            State::Gas => ENERGY_GAS,
        }
    }
}

/// How two touching materials react, by their phase-energy difference.
#[derive(Clone, Copy, Debug, PartialEq, Eq, Structural)]
pub enum ReactionType {
    /// Both particles change to the blended material.
    Reaction,
    /// Only the lower-energy particle changes.
    CatalyticLowChanges,
    /// The higher-energy particle changes; the lower-energy one vanishes.
    CatalyticHighChangesAndLowVanishes,
}

/// Energy-difference threshold below which a reaction is mutual.
pub const REACTION_LOW_THRESHOLD: i64 = 200_000;

/// Energy-difference threshold at and above which the lower-energy particle
/// vanishes.
pub const REACTION_HIGH_THRESHOLD: i64 = 500_000;

pub open spec fn spec_reaction_type(a: State, b: State) -> ReactionType {
    let delta = iabs(spec_energy(a) - spec_energy(b));
    if delta < REACTION_LOW_THRESHOLD {
        ReactionType::Reaction
    } else if delta < REACTION_HIGH_THRESHOLD {
        ReactionType::CatalyticLowChanges
    } else {
        ReactionType::CatalyticHighChangesAndLowVanishes
    }
}

/// Classifies the reaction of two phases from the absolute difference of
/// their energy levels.
pub fn decide_reaction_type(state_a: State, state_b: State) -> (r: ReactionType)
    ensures
        r == spec_reaction_type(state_a, state_b),
{
    let ea: i64 = state_a.get_energy_level();
    let eb: i64 = state_b.get_energy_level();
    let delta: i64 = if ea >= eb {
        ea - eb
    } else {
        eb - ea
    };
    if delta < REACTION_LOW_THRESHOLD {
        ReactionType::Reaction
    } else if delta < REACTION_HIGH_THRESHOLD {
        ReactionType::CatalyticLowChanges
    } else {
        ReactionType::CatalyticHighChangesAndLowVanishes
    }
}

/// A material's physical, thermal and optical properties.
#[derive(Clone, Copy, Debug, PartialEq, Eq, Structural)]
pub struct BaseMaterialParams {
    pub state: State,
    pub density: i64,
    pub viscosity: i64,
    pub hardness: i64,
    pub elasticity: i64,
    pub cohesion: i64,
    /// Signed; `-heat_capacity_low` is the freezing threshold.
    pub temperature: i64,
    pub heat_conductivity: i64,
    pub heat_capacity_high: i64,
    pub heat_capacity_low: i64,
    pub entropy_bias: i64,
    pub volatility: i64,
    pub luminescence: i64,
    pub color_hue: i64,
    pub color_saturation: i64,
    pub color_luminance: i64,
}

/// Every normalized property in range; temperature within its spike bounds;
/// conductivity may transiently exceed one whole unit while a phase change
/// builds up.
pub open spec fn params_wf(p: BaseMaterialParams) -> bool {
    &&& 0 <= p.density <= SCALE
    &&& 0 <= p.viscosity <= SCALE
    &&& 0 <= p.hardness <= SCALE
    &&& 0 <= p.elasticity <= SCALE
    &&& 0 <= p.cohesion <= SCALE
    &&& -SCALE <= p.temperature <= 2 * SCALE
    &&& 0 <= p.heat_conductivity <= 2 * SCALE
    &&& 0 <= p.heat_capacity_high <= SCALE
    &&& 0 <= p.heat_capacity_low <= SCALE
    &&& 0 <= p.entropy_bias <= SCALE
    &&& 0 <= p.volatility <= SCALE
    &&& 0 <= p.luminescence <= SCALE
    &&& 0 <= p.color_hue <= SCALE
    &&& 0 <= p.color_saturation <= SCALE
    &&& 0 <= p.color_luminance <= SCALE
}

impl Default for BaseMaterialParams {
    /// A plain grey solid.
    fn default() -> (r: Self)
        ensures
            r.state == State::Solid,
            r.density == 500_000,
            r.viscosity == 300_000,
            r.hardness == 700_000,
            r.elasticity == 200_000,
            r.cohesion == 0,
            r.temperature == 0,
            r.heat_conductivity == 400_000,
            r.heat_capacity_high == 600_000,
            r.heat_capacity_low == 100_000,
            r.entropy_bias == 100_000,
            r.volatility == 500_000,
            r.luminescence == 0,
            r.color_hue == 500_000,
            r.color_saturation == 800_000,
            r.color_luminance == 600_000,
            params_wf(r),
    {
        BaseMaterialParams {
            state: State::Solid,
            density: 500_000,
            viscosity: 300_000,
            hardness: 700_000,
            elasticity: 200_000,
            cohesion: 0,
            temperature: 0,
            heat_conductivity: 400_000,
            heat_capacity_high: 600_000,
            heat_capacity_low: 100_000,
            entropy_bias: 100_000,
            volatility: 500_000,
            luminescence: 0,
            color_hue: 500_000,
            color_saturation: 800_000,
            color_luminance: 600_000,
        }
    }
}

/// Number of gene slots: one per property plus one for the phase.
pub const GENE_COUNT: usize = 16;

/// A reproducible genetic encoding of a material.
pub struct MaterialDNA {
    /// The DNA's reproducible identity; drives name generation and derived
    /// random streams.
    pub seed: u64,
    /// Normalized gene values; slot 0 encodes the phase, the rest mirror the
    /// property fields in declaration order, colors last.
    pub genes: Vec<i64>,
}

pub open spec fn dna_wf(d: &MaterialDNA) -> bool {
    &&& d.genes@.len() == GENE_COUNT
    &&& forall|i: int| 0 <= i < GENE_COUNT ==> 0 <= #[trigger] d.genes@[i] <= SCALE
}

impl Clone for MaterialDNA {
    fn clone(&self) -> (r: Self)
        ensures
            r.seed == self.seed,
            r.genes@ == self.genes@,
    {
        let mut genes: Vec<i64> = Vec::new();
        let mut i: usize = 0;
        while i < self.genes.len()
            invariant
                i <= self.genes@.len(),
                genes@ == self.genes@.take(i as int),
            decreases self.genes@.len() - i,
        {
            genes.push(self.genes[i]);
            i = i + 1;
        }
        proof {
            assert(genes@ =~= self.genes@);
        }
        MaterialDNA { seed: self.seed, genes }
    }
}

/// The phase encoded by gene 0: the unit range split into three bands.
pub open spec fn spec_state_of_gene(g: int) -> State {
    if g < 330_000 {
        State::Solid
    } else if g < 660_000 {
        State::Liquid
    } else {
        State::Gas
    }
}

/// Band midpoints, so that decoding recovers the phase exactly.
pub open spec fn spec_gene_of_state(s: State) -> int {
    match s {
        State::Solid => 165_000,
        State::Liquid => 495_000,
        State::Gas => 825_000,
    }
}

/// What decoding a DNA yields: each property read off its gene, the phase
/// from the banded first gene, the temperature re-centered.
pub open spec fn spec_decodes(dna: &MaterialDNA, p: BaseMaterialParams) -> bool {
    &&& p.state == spec_state_of_gene(dna.genes@[0] as int)
    &&& p.density == dna.genes@[1]
    &&& p.viscosity == dna.genes@[2]
    &&& p.hardness == dna.genes@[3]
    &&& p.elasticity == dna.genes@[4]
    &&& p.cohesion == dna.genes@[5]
    &&& p.temperature == 2 * dna.genes@[6] - SCALE
    &&& p.heat_conductivity == dna.genes@[7]
    &&& p.heat_capacity_high == dna.genes@[8]
    &&& p.heat_capacity_low == dna.genes@[9]
    &&& p.entropy_bias == dna.genes@[10]
    &&& p.volatility == dna.genes@[11]
    &&& p.luminescence == dna.genes@[12]
    &&& p.color_hue == dna.genes@[13]
    &&& p.color_saturation == dna.genes@[14]
    &&& p.color_luminance == dna.genes@[15]
}

/// Decodes a DNA into its material properties.
pub fn from_dna(dna: &MaterialDNA) -> (p: BaseMaterialParams)
    requires
        dna_wf(dna),
    ensures
        spec_decodes(dna, p),
        params_wf(p),
{
    let g0: i64 = dna.genes[0];
    let state: State = if g0 < 330_000 {
        State::Solid
    } else if g0 < 660_000 {
        State::Liquid
    } else {
        State::Gas
    };
    BaseMaterialParams {
        state,
        density: dna.genes[1],
        viscosity: dna.genes[2],
        hardness: dna.genes[3],
        elasticity: dna.genes[4],
        cohesion: dna.genes[5],
        temperature: 2 * dna.genes[6] - SCALE,
        heat_conductivity: dna.genes[7],
        heat_capacity_high: dna.genes[8],
        heat_capacity_low: dna.genes[9],
        entropy_bias: dna.genes[10],
        volatility: dna.genes[11],
        luminescence: dna.genes[12],
        color_hue: dna.genes[13],
        color_saturation: dna.genes[14],
        color_luminance: dna.genes[15],
    }
}

/// The gene a property encodes to: the value itself, forced into the unit
/// range (a spiked temperature or conductivity is clamped first).
pub open spec fn spec_unit_gene(v: int) -> int {
    spec_clamp(v, 0, SCALE as int)
}

/// The temperature gene: `[-SCALE, SCALE]` mapped onto the unit range.
pub open spec fn spec_temp_gene(t: int) -> int {
    (spec_clamp(t, -(SCALE as int), SCALE as int) + SCALE) / 2
}

/// A property forced into the unit gene range.
pub fn unit_gene(v: i64) -> (r: i64)
    ensures
        r == spec_unit_gene(v as int),
        0 <= r <= SCALE,
{
    clamp64(v, 0, SCALE)
}

/// Encodes material properties into a DNA under the given seed.
#[verifier::rlimit(100)]
pub fn to_dna(params: &BaseMaterialParams, seed: u64) -> (d: MaterialDNA)
    ensures
        d.seed == seed,
        d.genes@.len() == GENE_COUNT,
        d.genes@[0] == spec_gene_of_state(params.state),
        d.genes@[1] == spec_unit_gene(params.density as int),
        d.genes@[2] == spec_unit_gene(params.viscosity as int),
        d.genes@[3] == spec_unit_gene(params.hardness as int),
        d.genes@[4] == spec_unit_gene(params.elasticity as int),
        d.genes@[5] == spec_unit_gene(params.cohesion as int),
        d.genes@[6] == spec_temp_gene(params.temperature as int),
        d.genes@[7] == spec_unit_gene(params.heat_conductivity as int),
        d.genes@[8] == spec_unit_gene(params.heat_capacity_high as int),
        d.genes@[9] == spec_unit_gene(params.heat_capacity_low as int),
        d.genes@[10] == spec_unit_gene(params.entropy_bias as int),
        d.genes@[11] == spec_unit_gene(params.volatility as int),
        d.genes@[12] == spec_unit_gene(params.luminescence as int),
        d.genes@[13] == spec_unit_gene(params.color_hue as int),
        d.genes@[14] == spec_unit_gene(params.color_saturation as int),
        d.genes@[15] == spec_unit_gene(params.color_luminance as int),
        dna_wf(&d),
{
    let state_gene: i64 = match params.state {
        State::Solid => 165_000,
        State::Liquid => 495_000,
        State::Gas => 825_000,
    };
    let t: i64 = clamp64(params.temperature, -SCALE, SCALE);
    let temp_gene: i64 = (((t + SCALE) as u64) / 2) as i64;
    let g1: i64 = unit_gene(params.density);
    let g2: i64 = unit_gene(params.viscosity);
    let g3: i64 = unit_gene(params.hardness);
    let g4: i64 = unit_gene(params.elasticity);
    let g5: i64 = unit_gene(params.cohesion);
    let g7: i64 = unit_gene(params.heat_conductivity);
    let g8: i64 = unit_gene(params.heat_capacity_high);
    let g9: i64 = unit_gene(params.heat_capacity_low);
    let g10: i64 = unit_gene(params.entropy_bias);
    let g11: i64 = unit_gene(params.volatility);
    let g12: i64 = unit_gene(params.luminescence);
    let g13: i64 = unit_gene(params.color_hue);
    let g14: i64 = unit_gene(params.color_saturation);
    let g15: i64 = unit_gene(params.color_luminance);
    let mut genes: Vec<i64> = Vec::new();
    genes.push(state_gene);
    genes.push(g1);
    genes.push(g2);
    genes.push(g3);
    genes.push(g4);
    genes.push(g5);
    genes.push(temp_gene);
    genes.push(g7);
    genes.push(g8);
    genes.push(g9);
    genes.push(g10);
    genes.push(g11);
    genes.push(g12);
    genes.push(g13);
    genes.push(g14);
    genes.push(g15);
    proof {
        assert(genes@ =~= seq![
            state_gene, g1, g2, g3, g4, g5, temp_gene, g7, g8, g9, g10, g11, g12, g13, g14, g15,
        ]);
    }
    MaterialDNA { seed, genes }
}

/// Decoding an encoded material recovers it: the phase exactly, every
/// property exactly but temperature, which the half-unit gene scale may lower
/// by a single millionth.
pub proof fn lemma_dna_round_trip(p: BaseMaterialParams, d: MaterialDNA)
    requires
        params_wf(p),
        p.temperature <= SCALE,
        p.heat_conductivity <= SCALE,
        d.genes@.len() == GENE_COUNT,
        d.genes@[0] == spec_gene_of_state(p.state),
        d.genes@[1] == spec_unit_gene(p.density as int),
        d.genes@[2] == spec_unit_gene(p.viscosity as int),
        d.genes@[3] == spec_unit_gene(p.hardness as int),
        d.genes@[4] == spec_unit_gene(p.elasticity as int),
        d.genes@[5] == spec_unit_gene(p.cohesion as int),
        d.genes@[6] == spec_temp_gene(p.temperature as int),
        d.genes@[7] == spec_unit_gene(p.heat_conductivity as int),
        d.genes@[8] == spec_unit_gene(p.heat_capacity_high as int),
        d.genes@[9] == spec_unit_gene(p.heat_capacity_low as int),
        d.genes@[10] == spec_unit_gene(p.entropy_bias as int),
        d.genes@[11] == spec_unit_gene(p.volatility as int),
        d.genes@[12] == spec_unit_gene(p.luminescence as int),
        d.genes@[13] == spec_unit_gene(p.color_hue as int),
        d.genes@[14] == spec_unit_gene(p.color_saturation as int),
        d.genes@[15] == spec_unit_gene(p.color_luminance as int),
    ensures
        spec_state_of_gene(d.genes@[0] as int) == p.state,
        d.genes@[1] == p.density,
        d.genes@[2] == p.viscosity,
        d.genes@[3] == p.hardness,
        d.genes@[4] == p.elasticity,
        d.genes@[5] == p.cohesion,
        2 * d.genes@[6] - SCALE == p.temperature - ((p.temperature + SCALE) % 2),
        iabs(2 * d.genes@[6] - SCALE - p.temperature) <= 1,
        d.genes@[7] == p.heat_conductivity,
        d.genes@[8] == p.heat_capacity_high,
        d.genes@[9] == p.heat_capacity_low,
        d.genes@[10] == p.entropy_bias,
        d.genes@[11] == p.volatility,
        d.genes@[12] == p.luminescence,
        d.genes@[13] == p.color_hue,
        d.genes@[14] == p.color_saturation,
        d.genes@[15] == p.color_luminance,
{
    let t = p.temperature as int;
    assert(spec_temp_gene(t) == (t + SCALE) / 2);
    lemma_fundamental_div_mod(t + SCALE, 2);
}

/// The phase drawn for a fresh seed: the first stream word picks one of the
/// three phases evenly.
pub open spec fn spec_from_seed_state(w: u64) -> State {
    if (w as int) % 3 == 0 {
        State::Solid
    } else if (w as int) % 3 == 1 {
        State::Liquid
    } else {
        State::Gas
    }
}

/// Generates a stochastic material from a seed: each property is drawn from
/// the seed's reproducible word stream.
pub fn from_seed(seed: u64) -> (p: BaseMaterialParams)
    ensures
        p.state == spec_from_seed_state(word_stream(seed)[0]),
        p.density == spec_frac(word_stream(seed)[1]),
        p.viscosity == spec_frac(word_stream(seed)[2]),
        p.hardness == spec_frac(word_stream(seed)[3]),
        p.elasticity == spec_frac(word_stream(seed)[4]),
        p.cohesion == spec_frac(word_stream(seed)[5]),
        p.temperature == 2 * spec_frac(word_stream(seed)[6]) - SCALE,
        p.heat_conductivity == spec_frac(word_stream(seed)[7]),
        p.heat_capacity_high == spec_frac(word_stream(seed)[8]),
        p.heat_capacity_low == spec_frac(word_stream(seed)[9]),
        p.entropy_bias == spec_frac(word_stream(seed)[10]),
        p.volatility == spec_frac(word_stream(seed)[11]),
        p.luminescence == spec_frac(word_stream(seed)[12]),
        p.color_hue == spec_frac(word_stream(seed)[13]),
        p.color_saturation == spec_frac(word_stream(seed)[14]),
        p.color_luminance == 200_000 + (word_stream(seed)[15] as int) % 800_001,
        params_wf(p),
{
    let ws: Vec<u64> = seed_words(seed);
    let state: State = match ws[0] % 3 {
        0 => State::Solid,
        1 => State::Liquid,
        _ => State::Gas,
    };
    BaseMaterialParams {
        state,
        density: word_frac(ws[1]),
        viscosity: word_frac(ws[2]),
        hardness: word_frac(ws[3]),
        elasticity: word_frac(ws[4]),
        cohesion: word_frac(ws[5]),
        temperature: 2 * word_frac(ws[6]) - SCALE,
        heat_conductivity: word_frac(ws[7]),
        heat_capacity_high: word_frac(ws[8]),
        heat_capacity_low: word_frac(ws[9]),
        entropy_bias: word_frac(ws[10]),
        volatility: word_frac(ws[11]),
        luminescence: word_frac(ws[12]),
        color_hue: word_frac(ws[13]),
        color_saturation: word_frac(ws[14]),
        color_luminance: 200_000 + (ws[15] % 800_001) as i64,
    }
}

/// Linear interpolation of one gene: `a` at ratio 0, `b` at ratio `SCALE`.
pub open spec fn spec_lerp(a: int, b: int, ratio: int) -> int {
    a + smul(ratio, b - a)
}

/// Interpolates between two genes in the unit range.
pub fn lerp_gene(a: i64, b: i64, ratio: i64) -> (r: i64)
    requires
        0 <= a <= SCALE,
        0 <= b <= SCALE,
        0 <= ratio <= SCALE,
    ensures
        r == spec_lerp(a as int, b as int, ratio as int),
        0 <= r <= SCALE,
{
    let d: i64 = b - a;
    let m: i64 = fmul(ratio, d);
    proof {
        lemma_smul_frac_range(ratio as int, d as int);
    }
    a + m
}

pub const FNV_OFFSET: u64 = 0xcbf2_9ce4_8422_2325;

pub const FNV_PRIME: u64 = 0x100_0000_01b3;

/// One step of the FNV-1a fold used to derive seeds from values.
pub open spec fn fnv_step(h: u64, v: u64) -> u64 {
    (h ^ v).wrapping_mul(FNV_PRIME)
}

fn fnv_mix(h: u64, v: u64) -> (r: u64)
    ensures
        r == fnv_step(h, v),
{
    (h ^ v).wrapping_mul(FNV_PRIME)
}

/// The jitter seed of a blend: both parent seeds and the ratio folded
/// together.
pub open spec fn spec_jitter_seed(sa: u64, sb: u64, ratio: int) -> u64 {
    fnv_step(fnv_step(fnv_step(FNV_OFFSET, sa), sb), ratio as u64)
}

fn jitter_seed(sa: u64, sb: u64, ratio: i64) -> (r: u64)
    requires
        0 <= ratio,
    ensures
        r == spec_jitter_seed(sa, sb, ratio as int),
{
    fnv_mix(fnv_mix(fnv_mix(FNV_OFFSET, sa), sb), ratio as u64)
}

/// The fold of the first `n` genes into a 64-bit hash.
pub open spec fn spec_genes_hash(s: Seq<i64>, n: int) -> u64
    decreases n,
{
    if n <= 0 {
        FNV_OFFSET
    } else {
        fnv_step(spec_genes_hash(s, n - 1), s[n - 1] as u64)
    }
}

/// The seed a blended gene vector hashes to; zero is avoided so that a seed
/// of zero can stand for "no identity".
pub open spec fn spec_blend_seed(s: Seq<i64>) -> u64 {
    let h = spec_genes_hash(s, GENE_COUNT as int);
    if h == 0 {
        1u64
    } else {
        h
    }
}

/// The shorter circular way from hue `ha` to hue `hb` on the unit circle.
pub open spec fn spec_hue_delta(ha: int, hb: int) -> int {
    let d = hb - ha;
    if d > 500_000 {
        d - SCALE
    } else if d < -500_000 {
        d + SCALE
    } else {
        d
    }
}

/// The interpolation exponent's fixed-point stand-in: ratio squared at zero
/// entropy, plain ratio at full entropy.
pub open spec fn spec_nl_ratio(ratio: int, entropy: int) -> int {
    smul(ratio, ratio) + smul(entropy, ratio - smul(ratio, ratio))
}

/// The blended hue: shorter circular path, entropy-weighted ratio, plus
/// seed-derived jitter, wrapped back onto the unit circle.
pub open spec fn spec_blend_hue(a: &MaterialDNA, b: &MaterialDNA, ratio: int) -> int {
    let entropy = spec_lerp(a.genes@[10] as int, b.genes@[10] as int, ratio);
    let nlr = spec_nl_ratio(ratio, entropy);
    let blended = a.genes@[13] + smul(nlr, spec_hue_delta(a.genes@[13] as int, b.genes@[13] as int));
    let range = 5_000 + smul(entropy, 100_000);
    let noise = spec_signed_in(word_stream(spec_jitter_seed(a.seed, b.seed, ratio))[0], range);
    (blended + noise + SCALE) % (SCALE as int)
}

/// The blended saturation: density-weighted mean of the parents, corrected by
/// the blended temperature.
pub open spec fn spec_blend_sat(a: &MaterialDNA, b: &MaterialDNA, ratio: int) -> int {
    let da = a.genes@[1] as int;
    let db = b.genes@[1] as int;
    let sa = a.genes@[14] as int;
    let sb = b.genes@[14] as int;
    let base = if da + db > 0 {
        (sa * da + sb * db) / (da + db)
    } else {
        (sa + sb) / 2
    };
    let t = 2 * spec_lerp(a.genes@[6] as int, b.genes@[6] as int, ratio) - SCALE;
    spec_clamp(smul(base, SCALE + smul(t, 200_000)), 0, SCALE as int)
}

/// The blended luminance: drawn fresh from the jitter stream, so repeated
/// blending cannot pin it high.
pub open spec fn spec_blend_lum(a: &MaterialDNA, b: &MaterialDNA, ratio: int) -> int {
    spec_frac(word_stream(spec_jitter_seed(a.seed, b.seed, ratio))[1])
}

/// What `blend` promises of its result: every gene and the fresh seed are
/// fixed functions of the two parents and the ratio.
pub open spec fn blend_post(a: &MaterialDNA, b: &MaterialDNA, ratio: int, r: &MaterialDNA) -> bool {
    &&& r.genes@.len() == GENE_COUNT
    &&& forall|i: int|
        0 <= i < 13 ==> r.genes@[i] == spec_lerp(a.genes@[i] as int, b.genes@[i] as int, ratio)
    &&& r.genes@[13] == spec_blend_hue(a, b, ratio)
    &&& r.genes@[14] == spec_blend_sat(a, b, ratio)
    &&& r.genes@[15] == spec_blend_lum(a, b, ratio)
    &&& r.seed == spec_blend_seed(r.genes@)
}

impl MaterialDNA {
    /// Blends two DNAs: plain genes interpolate linearly, hue takes the
    /// shorter way around the circle with seed-derived jitter, saturation is
    /// density-weighted, luminance is redrawn, and the result gets a fresh
    /// seed hashed from its genes.
    pub fn blend(&self, other: &Self, ratio: i64) -> (r: Self)
        requires
            dna_wf(self),
            dna_wf(other),
            0 <= ratio <= SCALE,
        ensures
            blend_post(self, other, ratio as int, &r),
            dna_wf(&r),
    {
        let mut genes: Vec<i64> = Vec::new();
        let mut i: usize = 0;
        while i < 13
            invariant
                dna_wf(self),
                dna_wf(other),
                0 <= ratio <= SCALE,
                i <= 13,
                genes@.len() == i,
                forall|k: int|
                    0 <= k < i ==> #[trigger] genes@[k] == spec_lerp(
                        self.genes@[k] as int,
                        other.genes@[k] as int,
                        ratio as int,
                    ),
                forall|k: int| 0 <= k < i ==> 0 <= #[trigger] genes@[k] <= SCALE,
            decreases 13 - i,
        {
            genes.push(lerp_gene(self.genes[i], other.genes[i], ratio));
            i = i + 1;
        }
        let entropy: i64 = genes[10];
        let temp_gene: i64 = genes[6];
        let jseed: u64 = jitter_seed(self.seed, other.seed, ratio);
        let ws: Vec<u64> = seed_words(jseed);

        // Hue: shorter circular path with jitter.
        let ha: i64 = self.genes[13];
        let hb: i64 = other.genes[13];
        let diff: i64 = hb - ha;
        let delta: i64 = if diff > 500_000 {
            diff - SCALE
        } else if diff < -500_000 {
            diff + SCALE
        } else {
            diff
        };
        let rr: i64 = fmul(ratio, ratio);
        proof {
            lemma_smul_frac_range(ratio as int, ratio as int);
        }
        let ee: i64 = fmul(entropy, ratio - rr);
        proof {
            lemma_smul_frac_range(entropy as int, ratio - rr);
        }
        let nlr: i64 = rr + ee;
        let shift: i64 = fmul(nlr, delta);
        proof {
            lemma_smul_frac_range(nlr as int, delta as int);
        }
        let blended: i64 = ha + shift;
        let nn: i64 = fmul(entropy, 100_000);
        proof {
            lemma_smul_frac_range(entropy as int, 100_000);
        }
        let noise_range: i64 = 5_000 + nn;
        let noise: i64 = word_signed_in(ws[0], noise_range);
        let x: i64 = blended + noise + SCALE;
        let hue: i64 = ((x as u64) % (SCALE as u64)) as i64;

        // Saturation: density-weighted mean with temperature correction.
        let da: i64 = self.genes[1];
        let db: i64 = other.genes[1];
        let sa: i64 = self.genes[14];
        let sb: i64 = other.genes[14];
        let base: i64 = if da + db > 0 {
            proof {
                assert((sa as int) * (da as int) <= 1_000_000_000_000 && (sb as int) * (db as int)
                    <= 1_000_000_000_000 && (sa as int) * (da as int) >= 0 && (sb as int) * (
                db as int) >= 0) by (nonlinear_arith)
                    requires
                        0 <= sa <= SCALE,
                        0 <= sb <= SCALE,
                        0 <= da <= SCALE,
                        0 <= db <= SCALE,
                ;
            }
            let num: u64 = (sa as u64) * (da as u64) + (sb as u64) * (db as u64);
            proof {
                assert((sa as int) * (da as int) + (sb as int) * (db as int) <= (SCALE as int) * (
                (da as int) + (db as int))) by (nonlinear_arith)
                    requires
                        0 <= sa <= SCALE,
                        0 <= sb <= SCALE,
                        0 <= da,
                        0 <= db,
                ;
                lemma_div_is_ordered(
                    (sa as int) * (da as int) + (sb as int) * (db as int),
                    (SCALE as int) * ((da as int) + (db as int)),
                    (da as int) + (db as int),
                );
                lemma_div_multiples_vanish(SCALE as int, (da as int) + (db as int));
                assert((SCALE as int) * ((da as int) + (db as int)) == ((da as int) + (
                db as int)) * (SCALE as int)) by (nonlinear_arith);
                lemma_div_is_ordered(
                    0,
                    (sa as int) * (da as int) + (sb as int) * (db as int),
                    (da as int) + (db as int),
                );
                lemma_div_basics((da as int) + (db as int));
            }
            (num / ((da + db) as u64)) as i64
        } else {
            (((sa + sb) as u64) / 2) as i64
        };
        let tcur: i64 = 2 * temp_gene - SCALE;
        let corr: i64 = fmul(tcur, 200_000);
        proof {
            lemma_smul_bound(tcur as int, 200_000, SCALE as int, 200_000);
        }
        let sat: i64 = clamp64(fmul(base, SCALE + corr), 0, SCALE);

        // Luminance: redrawn from the jitter stream.
        let lum: i64 = word_frac(ws[1]);

        genes.push(hue);
        genes.push(sat);
        genes.push(lum);

        // Fresh seed: hash of the blended genes.
        let mut h: u64 = FNV_OFFSET;
        let mut k: usize = 0;
        while k < GENE_COUNT
            invariant
                genes@.len() == GENE_COUNT,
                k <= GENE_COUNT,
                h == spec_genes_hash(genes@, k as int),
            decreases GENE_COUNT - k,
        {
            h = fnv_mix(h, genes[k] as u64);
            k = k + 1;
        }
        let seed: u64 = if h == 0 {
            1
        } else {
            h
        };
        MaterialDNA { seed, genes }
    }
}

/// Blending is deterministic: any two results that meet `blend`'s contract
/// for the same parents and ratio hold the same genes and the same seed —
/// the jitter derives from the parent seeds, not from any ambient source.
pub proof fn lemma_blend_deterministic(
    a: &MaterialDNA,
    b: &MaterialDNA,
    ratio: int,
    r1: &MaterialDNA,
    r2: &MaterialDNA,
)
    requires
        blend_post(a, b, ratio, r1),
        blend_post(a, b, ratio, r2),
    ensures
        r1.genes@ == r2.genes@,
        r1.seed == r2.seed,
{
    assert(r1.genes@ =~= r2.genes@);
}

} // verus!
